use threadpools::executor::{IoThreadPool, Polled, TaskAction};
use threadpools::SpawnError;

/// A future for the tests: it completes at the poll after `waits` polls,
/// and writes `value` when it does.
struct Delay {
    waits: u32,
    value: u32,
}

/// Polls `future` once. A future that is not complete asks to be woken.
fn poll(mut future: Delay, done: &mut Vec<u32>) -> (Polled<Delay>, bool) {
    if future.waits == 0 {
        done.push(future.value);
        (Polled::Ready, false)
    } else {
        future.waits -= 1;
        (Polled::Pending(future), true)
    }
}

/// Runs the workers of `pool` until the run queue is empty. Every future
/// that is not complete is woken right after its poll, as a timer that has
/// run out would do it.
fn run(pool: &mut IoThreadPool<Delay>, done: &mut Vec<u32>) -> usize {
    let mut polls = 0;
    loop {
        match pool.worker_step() {
            TaskAction::Poll { task, future } => {
                polls += 1;
                let (outcome, wants_wake) = poll(future, done);
                pool.finish_poll(task, outcome);
                if wants_wake {
                    assert!(pool.wake(task));
                }
            }
            TaskAction::Skip(_) => {}
            TaskAction::Wait | TaskAction::Exit => return polls,
        }
    }
}

#[test]
fn test_io_pool_runs_async_tasks() {
    let mut pool = IoThreadPool::new(2);
    let mut result = vec![];

    for i in 0..5 {
        assert_eq!(pool.spawn(Delay { waits: 1, value: i }), Ok(i as u64));
    }

    run(&mut pool, &mut result);

    result.sort();
    assert_eq!(result, vec![0, 1, 2, 3, 4]);
}

#[test]
fn test_multiple_yielding_tasks() {
    let mut pool = IoThreadPool::new(4);
    let mut output = vec![];

    for _ in 0..10 {
        assert!(pool.spawn(Delay { waits: 5, value: 5 }).is_ok());
    }

    let polls = run(&mut pool, &mut output);
    assert_eq!(polls, 60);
    assert_eq!(output.iter().sum::<u32>(), 50);
    for task in 0..10 {
        assert!(pool.is_finished(task));
    }
}

#[test]
fn pending_task_is_polled_again_only_after_a_wake() {
    let mut pool = IoThreadPool::new(1);
    let mut done = vec![];
    assert_eq!(pool.spawn(Delay { waits: 1, value: 9 }), Ok(0));

    let (task, future) = match pool.worker_step() {
        TaskAction::Poll { task, future } => (task, future),
        _ => panic!("the new task is to be polled"),
    };
    assert_eq!(task, 0);
    let (outcome, _) = poll(future, &mut done);
    pool.finish_poll(task, outcome);

    // Nobody has woken the task: it is not on the run queue.
    for _ in 0..3 {
        assert!(matches!(pool.worker_step(), TaskAction::Wait));
    }
    assert!(done.is_empty());
    assert!(!pool.is_finished(0));

    // One wake, one poll, and this time the future completes.
    assert!(pool.wake(0));
    let (task, future) = match pool.worker_step() {
        TaskAction::Poll { task, future } => (task, future),
        _ => panic!("the woken task is to be polled"),
    };
    let (outcome, _) = poll(future, &mut done);
    pool.finish_poll(task, outcome);
    assert_eq!(done, vec![9]);
    assert!(pool.is_finished(0));
    assert!(matches!(pool.worker_step(), TaskAction::Wait));

    // A wake that comes after completion finds the slot empty.
    assert!(pool.wake(0));
    assert!(matches!(pool.worker_step(), TaskAction::Skip(0)));
    assert_eq!(done, vec![9]);
}

#[test]
fn task_is_not_polled_while_it_is_being_polled() {
    let mut pool = IoThreadPool::new(2);
    assert_eq!(pool.spawn(Delay { waits: 3, value: 1 }), Ok(0));
    let future = match pool.worker_step() {
        TaskAction::Poll { task: 0, future } => future,
        _ => panic!("the new task is to be polled"),
    };
    // The future wakes its task from within the poll, twice.
    assert!(pool.wake(0));
    assert!(pool.wake(0));
    // Another worker finds the task on the run queue, but not the future.
    assert!(matches!(pool.worker_step(), TaskAction::Skip(0)));
    assert!(matches!(pool.worker_step(), TaskAction::Skip(0)));
    assert!(matches!(pool.worker_step(), TaskAction::Wait));
    // The wakes are not lost: the task is polled again, once.
    pool.finish_poll(0, Polled::Pending(future));
    assert!(matches!(
        pool.worker_step(),
        TaskAction::Poll { task: 0, future: Delay { waits: 3, value: 1 } }
    ));
    assert!(matches!(pool.worker_step(), TaskAction::Wait));
}

#[test]
fn task_woken_during_its_last_poll_stays_finished() {
    let mut pool = IoThreadPool::new(2);
    assert_eq!(pool.spawn(Delay { waits: 0, value: 1 }), Ok(0));
    assert!(matches!(pool.worker_step(), TaskAction::Poll { task: 0, .. }));
    assert!(pool.wake(0));
    assert!(matches!(pool.worker_step(), TaskAction::Skip(0)));
    pool.finish_poll(0, Polled::Ready);
    assert!(pool.is_finished(0));
    assert!(matches!(pool.worker_step(), TaskAction::Wait));
    // A second outcome for the same poll changes nothing.
    pool.finish_poll(0, Polled::Pending(Delay { waits: 0, value: 2 }));
    assert!(pool.is_finished(0));
    assert!(matches!(pool.worker_step(), TaskAction::Wait));
}

#[test]
fn never_woken_task_never_completes() {
    let mut pool = IoThreadPool::new(1);
    let mut done = vec![];
    assert_eq!(pool.spawn(Delay { waits: 1, value: 4 }), Ok(0));
    if let TaskAction::Poll { task, future } = pool.worker_step() {
        let (outcome, _) = poll(future, &mut done);
        pool.finish_poll(task, outcome);
    }
    for _ in 0..100 {
        assert!(matches!(pool.worker_step(), TaskAction::Wait));
    }
    assert!(done.is_empty());
    assert!(!pool.is_finished(0));
    assert_eq!(pool.tasks(), 1);
}

#[test]
fn executor_polls_tasks_in_order_of_submission() {
    let mut pool = IoThreadPool::new(3);
    for value in [7, 8, 9] {
        assert!(pool.spawn(Delay { waits: 0, value }).is_ok());
    }
    let mut done = vec![];
    assert_eq!(run(&mut pool, &mut done), 3);
    assert_eq!(done, vec![7, 8, 9]);
    assert_eq!(pool.threads(), 3);
}

#[test]
fn executor_ignores_outcomes_and_wakes_for_unknown_tasks() {
    let mut pool: IoThreadPool<Delay> = IoThreadPool::new(1);
    assert!(!pool.wake(0));
    pool.finish_poll(0, Polled::Ready);
    assert!(!pool.is_finished(0));
    assert!(matches!(pool.worker_step(), TaskAction::Wait));

    // An outcome for a task that is not being polled changes nothing.
    assert_eq!(pool.spawn(Delay { waits: 0, value: 1 }), Ok(0));
    pool.finish_poll(0, Polled::Ready);
    assert!(!pool.is_finished(0));
    assert!(matches!(
        pool.worker_step(),
        TaskAction::Poll { task: 0, future: Delay { waits: 0, value: 1 } }
    ));
}

#[test]
fn executor_sends_workers_home_after_shutdown() {
    let mut pool = IoThreadPool::new(1);
    assert_eq!(pool.spawn(Delay { waits: 0, value: 1 }), Ok(0));
    pool.shutdown();
    assert_eq!(
        pool.spawn(Delay { waits: 0, value: 2 }).err(),
        Some(SpawnError::Closed)
    );
    let mut done = vec![];
    run(&mut pool, &mut done);
    assert_eq!(done, vec![1]);
    assert!(matches!(pool.worker_step(), TaskAction::Exit));
}
