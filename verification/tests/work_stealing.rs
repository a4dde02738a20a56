use threadpools::deque::StealOutcome;
use threadpools::work_stealing::{after_attempt, Found, Lookup, Source, WorkStealingThreadPool};
use threadpools::{SpawnError, WorkerAction};

/// Drives the workers of `pool` in turn until a full round finds nothing,
/// and returns the jobs in the order in which they were handed out.
fn drain(pool: &mut WorkStealingThreadPool) -> Vec<u64> {
    let mut ran = Vec::new();
    let mut misses = 0;
    let mut worker = 0;
    // A steal may miss without the queue being empty, so a few quiet rounds
    // are needed before the pool counts as idle.
    while misses < 64 * pool.workers() {
        match pool.worker_step(worker) {
            WorkerAction::Run(job) => {
                ran.push(job);
                misses = 0;
            }
            WorkerAction::Wait => misses += 1,
            WorkerAction::Exit => break,
        }
        worker = (worker + 1) % pool.workers();
    }
    ran
}

#[test]
fn test_work_stealing_pool_executes_all_jobs() {
    let mut pool = WorkStealingThreadPool::new(4);
    let mut counter = 0;
    for job in 0..20 {
        assert_eq!(pool.spawn(job), Ok(()));
    }
    for _ in drain(&mut pool) {
        counter += 1;
    }
    assert_eq!(counter, 20);
}

#[test]
fn test_jobs_are_balanced_among_threads() {
    let mut pool = WorkStealingThreadPool::new(4);
    for i in 0..8 {
        assert_eq!(pool.spawn(i), Ok(()));
    }
    let mut res = drain(&mut pool);
    res.sort();
    assert_eq!(res, (0..8).collect::<Vec<u64>>());
}

#[test]
fn work_stealing_conserves_twenty_jobs() {
    let mut pool = WorkStealingThreadPool::new(4);
    for i in 0..20 {
        assert_eq!(pool.spawn(i), Ok(()));
    }
    let mut res = drain(&mut pool);
    assert_eq!(res.len(), 20);
    res.sort();
    res.dedup();
    assert_eq!(res, (0..20).collect::<Vec<u64>>());
}

#[test]
fn worker_serves_its_own_queue_first() {
    let mut pool = WorkStealingThreadPool::new(2);
    assert_eq!(pool.spawn(7), Ok(()));
    assert_eq!(pool.push_local(0, 1), Ok(()));
    assert_eq!(pool.push_local(0, 2), Ok(()));
    assert_eq!(pool.worker_step(0), WorkerAction::Run(1));
    assert_eq!(pool.worker_step(0), WorkerAction::Run(2));
}

#[test]
fn idle_worker_steals_from_a_peer() {
    let mut pool = WorkStealingThreadPool::new(3);
    assert_eq!(pool.push_local(2, 41), Ok(()));
    assert_eq!(pool.push_local(2, 42), Ok(()));
    // Worker 0 has nothing of its own and the global queue is empty.
    let mut got = None;
    for _ in 0..64 {
        if let WorkerAction::Run(job) = pool.worker_step(0) {
            got = Some(job);
            break;
        }
    }
    assert_eq!(got, Some(41));
    assert_eq!(pool.worker_step(2), WorkerAction::Run(42));
    assert_eq!(pool.worker_step(2), WorkerAction::Wait);
}

#[test]
fn shutdown_sends_workers_home_and_abandons_the_queue() {
    let mut pool = WorkStealingThreadPool::new(2);
    assert_eq!(pool.spawn(1), Ok(()));
    assert!(!pool.is_shutdown());
    pool.shutdown();
    assert!(pool.is_shutdown());
    assert_eq!(pool.worker_step(0), WorkerAction::Exit);
    assert_eq!(pool.worker_step(1), WorkerAction::Exit);
    assert_eq!(pool.spawn(2), Err(SpawnError::Closed));
    assert_eq!(pool.push_local(0, 3), Err(SpawnError::Closed));
}

#[test]
fn unknown_worker_is_refused() {
    let mut pool = WorkStealingThreadPool::new(2);
    assert_eq!(pool.push_local(2, 9), Err(SpawnError::NoSuchWorker));
    assert_eq!(pool.worker_step(5), WorkerAction::Exit);
    assert_eq!(pool.find_job(5), None);
    assert_eq!(pool.workers(), 2);
}

/// Asks for a job until the pool hands one out, a few times at most: an
/// attempt on a queue that is not the worker's own may miss.
fn find(pool: &mut WorkStealingThreadPool, worker: usize) -> Option<Found> {
    for _ in 0..64 {
        if let Some(found) = pool.find_job(worker) {
            return Some(found);
        }
    }
    None
}

#[test]
fn worker_looks_in_its_own_queue_then_the_global_one_then_its_peers() {
    let mut pool = WorkStealingThreadPool::new(4);
    assert_eq!(pool.push_local(3, 30), Ok(()));
    assert_eq!(pool.push_local(1, 10), Ok(()));
    assert_eq!(pool.spawn(99), Ok(()));
    assert_eq!(pool.push_local(1, 11), Ok(()));

    assert_eq!(
        pool.find_job(1),
        Some(Found { job: 10, source: Source::Own })
    );
    assert_eq!(
        pool.find_job(1),
        Some(Found { job: 11, source: Source::Own })
    );
    assert_eq!(
        find(&mut pool, 1),
        Some(Found { job: 99, source: Source::Global })
    );
    assert_eq!(
        find(&mut pool, 1),
        Some(Found { job: 30, source: Source::Peer(3) })
    );
    assert_eq!(find(&mut pool, 1), None);
}

#[test]
fn worker_never_steals_from_itself() {
    let mut pool = WorkStealingThreadPool::new(1);
    assert_eq!(pool.push_local(0, 1), Ok(()));
    assert_eq!(
        pool.find_job(0),
        Some(Found { job: 1, source: Source::Own })
    );
    assert_eq!(find(&mut pool, 0), None);
}

#[test]
fn a_job_that_was_taken_ends_the_search() {
    for tried in [Source::Own, Source::Global, Source::Peer(2)] {
        assert_eq!(
            after_attempt(1, 4, tried, StealOutcome::Success(77)),
            Lookup::Found(Found { job: 77, source: tried })
        );
    }
}

#[test]
fn a_miss_leads_to_the_global_queue_and_then_to_the_peers_in_turn() {
    for miss in [StealOutcome::Empty, StealOutcome::Retry] {
        assert_eq!(after_attempt(1, 4, Source::Own, miss), Lookup::Try(Source::Global));
        assert_eq!(after_attempt(1, 4, Source::Global, miss), Lookup::Try(Source::Peer(0)));
        // Worker 1 passes over itself.
        assert_eq!(after_attempt(1, 4, Source::Peer(0), miss), Lookup::Try(Source::Peer(2)));
        assert_eq!(after_attempt(1, 4, Source::Peer(2), miss), Lookup::Try(Source::Peer(3)));
        assert_eq!(after_attempt(1, 4, Source::Peer(3), miss), Lookup::Miss);
    }
}

#[test]
fn the_first_and_the_last_worker_pass_over_themselves() {
    let miss = StealOutcome::Empty;
    assert_eq!(after_attempt(0, 3, Source::Global, miss), Lookup::Try(Source::Peer(1)));
    assert_eq!(after_attempt(0, 3, Source::Peer(1), miss), Lookup::Try(Source::Peer(2)));
    assert_eq!(after_attempt(0, 3, Source::Peer(2), miss), Lookup::Miss);
    assert_eq!(after_attempt(2, 3, Source::Peer(0), miss), Lookup::Try(Source::Peer(1)));
    assert_eq!(after_attempt(2, 3, Source::Peer(1), miss), Lookup::Miss);
    // A worker alone has no peers.
    assert_eq!(after_attempt(0, 1, Source::Global, miss), Lookup::Miss);
    // A place beyond the last worker has nothing after it.
    assert_eq!(after_attempt(0, 3, Source::Peer(usize::MAX), miss), Lookup::Miss);
}

#[test]
fn worker_steals_from_the_first_peer_that_has_a_job() {
    let mut pool = WorkStealingThreadPool::new(4);
    assert_eq!(pool.push_local(3, 30), Ok(()));
    assert_eq!(pool.push_local(2, 20), Ok(()));
    assert_eq!(pool.push_local(0, 1), Ok(()));
    // Worker 1 has nothing of its own and the global queue is empty: a steal
    // from a peer does not miss, and the peers are asked by rising index.
    assert_eq!(
        pool.find_job(1),
        Some(Found { job: 1, source: Source::Peer(0) })
    );
    assert_eq!(
        pool.find_job(1),
        Some(Found { job: 20, source: Source::Peer(2) })
    );
    assert_eq!(
        pool.find_job(1),
        Some(Found { job: 30, source: Source::Peer(3) })
    );
    assert_eq!(pool.find_job(1), None);
}
