use threadpools::server::{PoolWorker, ThreadPool};
use threadpools::{SpawnError, WorkerAction};

#[test]
fn server_pool_numbers_its_workers_from_zero() {
    let pool = ThreadPool::new(3);
    assert_eq!(pool.size(), 3);
    assert_eq!(pool.running_workers(), 3);
    assert_eq!(pool.worker(0), Some(PoolWorker { id: 0, running: true }));
    assert_eq!(pool.worker(2), Some(PoolWorker { id: 2, running: true }));
    assert_eq!(pool.worker(3), None);
    assert_eq!(PoolWorker::new(7), PoolWorker { id: 7, running: true });
}

#[test]
fn server_pool_executes_jobs_in_order() {
    let mut pool = ThreadPool::new(2);
    for job in 0..6 {
        assert_eq!(pool.execute(job), Ok(()));
    }
    let mut ran = Vec::new();
    let mut worker = 0;
    while let WorkerAction::Run(job) = pool.worker_step(worker) {
        ran.push(job);
        worker = 1 - worker;
    }
    assert_eq!(ran, vec![0, 1, 2, 3, 4, 5]);
    assert_eq!(pool.worker_step(0), WorkerAction::Wait);
    assert_eq!(pool.running_workers(), 2);
}

#[test]
fn server_pool_shuts_down_worker_by_worker() {
    let mut pool = ThreadPool::new(3);
    assert_eq!(pool.execute(11), Ok(()));
    pool.shutdown();
    assert_eq!(pool.execute(12), Err(SpawnError::Closed));

    // The backlog is drained before anybody leaves.
    assert_eq!(pool.worker_step(1), WorkerAction::Run(11));
    assert_eq!(pool.running_workers(), 3);

    assert_eq!(pool.worker_step(1), WorkerAction::Exit);
    assert_eq!(pool.running_workers(), 2);
    assert_eq!(pool.worker(1), Some(PoolWorker { id: 1, running: false }));

    // A worker that has left stays out, and is not counted twice.
    assert_eq!(pool.worker_step(1), WorkerAction::Exit);
    assert_eq!(pool.running_workers(), 2);

    assert_eq!(pool.worker_step(0), WorkerAction::Exit);
    assert_eq!(pool.worker_step(2), WorkerAction::Exit);
    assert_eq!(pool.running_workers(), 0);
}

#[test]
fn server_pool_sends_unknown_workers_home() {
    let mut pool = ThreadPool::new(1);
    assert_eq!(pool.execute(1), Ok(()));
    assert_eq!(pool.worker_step(1), WorkerAction::Exit);
    assert_eq!(pool.worker_step(0), WorkerAction::Run(1));
}
