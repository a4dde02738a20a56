use std::time::Duration;
use threadpools::elastic::{
    worker_thread, worker_turn, ElasticThreadPool, IdleClock, POLL_INTERVAL_MILLIS,
};
use threadpools::{SpawnError, WorkerAction};

/// Lets every started worker take turns, each waiting `wait` between two
/// looks at the channel, until all have left. Returns the jobs that ran.
fn run_workers(pool: &mut ElasticThreadPool, wait: Duration) -> Vec<u64> {
    let mut clocks: Vec<IdleClock> = Vec::new();
    for _ in 0..pool.active_threads() {
        clocks.push(IdleClock::new());
    }
    let mut waited = vec![Duration::ZERO; clocks.len()];
    let mut gone = vec![false; clocks.len()];
    let mut ran = Vec::new();
    while gone.iter().any(|g| !g) {
        for w in 0..clocks.len() {
            if gone[w] {
                continue;
            }
            match worker_thread(pool, &mut clocks[w], waited[w]) {
                WorkerAction::Run(job) => {
                    ran.push(job);
                    waited[w] = Duration::ZERO;
                }
                WorkerAction::Wait => waited[w] = wait,
                WorkerAction::Exit => gone[w] = true,
            }
        }
    }
    ran
}

#[test]
fn test_elastic_thread_pool_runs_jobs() {
    let mut pool = ElasticThreadPool::new(Duration::from_millis(50));
    let mut counter = 0;

    for job in 0..10 {
        assert_eq!(pool.spawn(job), Ok(()));
    }
    assert_eq!(pool.active_threads(), 10);

    for _ in run_workers(&mut pool, Duration::from_millis(POLL_INTERVAL_MILLIS)) {
        counter += 1;
    }

    assert_eq!(counter, 10);
}

#[test]
fn test_threads_terminate_after_idle() {
    let mut pool = ElasticThreadPool::new(Duration::from_millis(50));
    let mut counter = 0;

    // One job starts one worker.
    assert_eq!(pool.spawn(0), Ok(()));
    assert_eq!(pool.active_threads(), 1);

    let mut clock = IdleClock::new();
    assert_eq!(
        worker_thread(&mut pool, &mut clock, Duration::ZERO),
        WorkerAction::Run(0)
    );
    counter += 1;

    // One hundred milliseconds without work are more than the pool allows.
    let mut idle = 0;
    loop {
        let step = Duration::from_millis(POLL_INTERVAL_MILLIS);
        idle += POLL_INTERVAL_MILLIS;
        match worker_thread(&mut pool, &mut clock, step) {
            WorkerAction::Wait => assert!(idle <= 50),
            WorkerAction::Exit => break,
            WorkerAction::Run(_) => panic!("no job was submitted"),
        }
        assert!(idle < 100);
    }

    assert_eq!(counter, 1);
    assert_eq!(pool.active_threads(), 0);
}

#[test]
fn elastic_worker_stays_until_the_idle_limit_has_passed() {
    let mut pool = ElasticThreadPool::new(Duration::from_millis(50));
    assert_eq!(pool.max_idle_nanos(), 50_000_000);
    assert_eq!(pool.spawn(1), Ok(()));
    let mut clock = IdleClock::new();
    assert_eq!(
        worker_thread(&mut pool, &mut clock, Duration::from_millis(500)),
        WorkerAction::Run(1)
    );
    // Running a job starts the idle time anew.
    assert_eq!(clock.idle_nanos(), 0);

    assert_eq!(
        worker_thread(&mut pool, &mut clock, Duration::from_millis(49)),
        WorkerAction::Wait
    );
    assert_eq!(clock.idle_nanos(), 49_000_000);
    assert_eq!(pool.active_threads(), 1);
    // At the limit itself the worker stays: only more than the limit sends
    // it home.
    assert_eq!(
        worker_thread(&mut pool, &mut clock, Duration::from_millis(1)),
        WorkerAction::Wait
    );
    assert_eq!(clock.idle_nanos(), 50_000_000);
    assert_eq!(pool.active_threads(), 1);
    assert_eq!(
        worker_thread(&mut pool, &mut clock, Duration::from_nanos(1)),
        WorkerAction::Exit
    );
    assert_eq!(clock.idle_nanos(), 50_000_001);
    assert_eq!(pool.active_threads(), 0);
}

#[test]
fn elastic_worker_restarts_its_idle_time_with_every_job() {
    let mut pool = ElasticThreadPool::new(Duration::from_millis(50));
    let mut clock = IdleClock::new();
    assert_eq!(pool.spawn(1), Ok(()));
    assert_eq!(
        worker_thread(&mut pool, &mut clock, Duration::ZERO),
        WorkerAction::Run(1)
    );
    assert_eq!(
        worker_thread(&mut pool, &mut clock, Duration::from_millis(40)),
        WorkerAction::Wait
    );
    assert_eq!(pool.spawn(2), Ok(()));
    assert_eq!(
        worker_thread(&mut pool, &mut clock, Duration::from_millis(40)),
        WorkerAction::Run(2)
    );
    // Eighty milliseconds have passed since the worker started, but only
    // forty since its last job.
    assert_eq!(
        worker_thread(&mut pool, &mut clock, Duration::from_millis(40)),
        WorkerAction::Wait
    );
    assert_eq!(
        worker_thread(&mut pool, &mut clock, Duration::from_millis(11)),
        WorkerAction::Exit
    );
}

#[test]
fn elastic_pool_starts_a_worker_for_every_job() {
    let mut pool = ElasticThreadPool::new(Duration::from_secs(1));
    assert_eq!(pool.active_threads(), 0);
    for job in 0..5 {
        assert_eq!(pool.spawn(job), Ok(()));
        assert_eq!(pool.active_threads(), job as usize + 1);
    }
    assert_eq!(pool.queued(), 5);
    let ran = run_workers(&mut pool, Duration::from_millis(600));
    assert_eq!(ran, vec![0, 1, 2, 3, 4]);
    assert_eq!(pool.active_threads(), 0);
}

#[test]
fn elastic_pool_lets_workers_go_on_shutdown() {
    let mut pool = ElasticThreadPool::new(Duration::from_secs(3600));
    assert_eq!(pool.spawn(1), Ok(()));
    assert_eq!(pool.spawn(2), Ok(()));
    pool.shutdown();
    assert_eq!(pool.spawn(3), Err(SpawnError::Closed));
    assert_eq!(pool.active_threads(), 2);
    let mut clock = IdleClock::new();
    assert_eq!(
        worker_thread(&mut pool, &mut clock, Duration::ZERO),
        WorkerAction::Run(1)
    );
    assert_eq!(
        worker_thread(&mut pool, &mut clock, Duration::ZERO),
        WorkerAction::Run(2)
    );
    assert_eq!(
        worker_thread(&mut pool, &mut clock, Duration::ZERO),
        WorkerAction::Exit
    );
    assert_eq!(pool.active_threads(), 1);
}

#[test]
fn idle_time_adds_up_over_the_longest_waits() {
    let mut pool = ElasticThreadPool::new(Duration::MAX);
    assert_eq!(pool.max_idle_nanos(), Duration::MAX.as_nanos());
    assert_eq!(pool.spawn(1), Ok(()));
    let mut clock = IdleClock::new();
    assert_eq!(
        worker_thread(&mut pool, &mut clock, Duration::ZERO),
        WorkerAction::Run(1)
    );
    assert_eq!(
        worker_thread(&mut pool, &mut clock, Duration::MAX),
        WorkerAction::Wait
    );
    assert_eq!(clock.idle_nanos(), Duration::MAX.as_nanos());
    assert_eq!(
        worker_thread(&mut pool, &mut clock, Duration::MAX),
        WorkerAction::Exit
    );
    assert_eq!(clock.idle_nanos(), 2 * Duration::MAX.as_nanos());
    assert_eq!(pool.active_threads(), 0);
}

#[test]
fn worker_turn_counts_the_wait_in_nanoseconds() {
    let mut pool = ElasticThreadPool::with_max_idle_nanos(100);
    assert_eq!(pool.max_idle_nanos(), 100);
    assert_eq!(pool.active_threads(), 0);
    assert_eq!(pool.spawn(9), Ok(()));
    let mut clock = IdleClock::new();
    assert_eq!(worker_turn(&mut pool, &mut clock, 1000), WorkerAction::Run(9));
    assert_eq!(clock.idle_nanos(), 0);
    assert_eq!(worker_turn(&mut pool, &mut clock, 60), WorkerAction::Wait);
    assert_eq!(worker_turn(&mut pool, &mut clock, 40), WorkerAction::Wait);
    assert_eq!(clock.idle_nanos(), 100);
    assert_eq!(pool.active_threads(), 1);
    assert_eq!(worker_turn(&mut pool, &mut clock, 1), WorkerAction::Exit);
    assert_eq!(clock.idle_nanos(), 101);
    assert_eq!(pool.active_threads(), 0);
}

#[test]
fn idle_clock_stops_at_its_largest_value() {
    let mut pool = ElasticThreadPool::with_max_idle_nanos(u128::MAX);
    let mut clock = IdleClock::new();
    assert_eq!(worker_turn(&mut pool, &mut clock, u128::MAX - 1), WorkerAction::Wait);
    assert_eq!(worker_turn(&mut pool, &mut clock, 5), WorkerAction::Wait);
    assert_eq!(clock.idle_nanos(), u128::MAX);
    // No clock can pass the largest limit: such a worker leaves only when
    // the pool is shut down.
    assert_eq!(worker_turn(&mut pool, &mut clock, u128::MAX), WorkerAction::Wait);
    pool.shutdown();
    assert_eq!(worker_turn(&mut pool, &mut clock, 0), WorkerAction::Exit);
}

#[test]
fn durations_and_nanoseconds_give_the_same_pool() {
    let by_duration = ElasticThreadPool::new(Duration::from_micros(3));
    let by_nanos = ElasticThreadPool::with_max_idle_nanos(3_000);
    assert_eq!(by_duration.max_idle_nanos(), by_nanos.max_idle_nanos());
    let mut pool = by_duration;
    let mut clock = IdleClock::new();
    assert_eq!(
        worker_thread(&mut pool, &mut clock, Duration::from_nanos(3_000)),
        WorkerAction::Wait
    );
    assert_eq!(worker_turn(&mut pool, &mut clock, 1), WorkerAction::Exit);
}
