use threadpools::fixed::ThreadPool;
use threadpools::job_table::JobTable;
use threadpools::WorkerAction;

#[test]
fn job_table_hands_every_job_out_once() {
    let mut table: JobTable<&'static str> = JobTable::new();
    let a = table.insert("a");
    let b = table.insert("b");
    assert_ne!(a, b);
    assert!(table.contains(a));
    assert_eq!(table.take(a), Some("a"));
    assert!(!table.contains(a));
    assert_eq!(table.take(a), None);
    assert_eq!(table.take(b), Some("b"));
    assert_eq!(table.take(b), None);
    assert_eq!(table.take(1000), None);
}

#[test]
fn job_table_uses_tickets_again_only_when_they_are_free() {
    let mut table: JobTable<u32> = JobTable::new();
    let first = table.insert(1);
    let second = table.insert(2);
    assert_eq!(table.take(first), Some(1));
    let third = table.insert(3);
    assert_ne!(third, second);
    assert_eq!(table.take(second), Some(2));
    assert_eq!(table.take(third), Some(3));
    assert!(!table.contains(first) || first == third);
}

#[test]
fn pool_and_table_run_closures_exactly_once() {
    let mut pool = ThreadPool::new(3);
    let mut table: JobTable<Box<dyn FnOnce(&mut Vec<u32>)>> = JobTable::new();
    for i in 0..10u32 {
        let ticket = table.insert(Box::new(move |out: &mut Vec<u32>| out.push(i)));
        assert_eq!(pool.spawn(ticket), Ok(()));
    }
    let mut out = Vec::new();
    while let WorkerAction::Run(ticket) = pool.worker_step() {
        let job = table.take(ticket).unwrap();
        job(&mut out);
        assert!(table.take(ticket).is_none());
    }
    assert_eq!(out, (0..10).collect::<Vec<u32>>());
}
