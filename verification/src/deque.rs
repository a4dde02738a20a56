//! The work-stealing queues of `crossbeam`, as this crate uses them.
//!
//! The pool that owns these queues reaches them through exclusive borrows
//! only, and never keeps a stealer handle alive across calls. What is
//! stated here is what the queues do in that setting.

use vstd::prelude::*;
use crossbeam::deque::{Injector, Steal, Worker};
use crate::JobId;

verus! {

/// `crossbeam::deque::Injector`, taken as opaque.
#[verifier::external_type_specification]
#[verifier::external_body]
#[verifier::reject_recursive_types(T)]
pub struct ExInjector<T>(crossbeam::deque::Injector<T>);

/// `crossbeam::deque::Worker`, taken as opaque.
#[verifier::external_type_specification]
#[verifier::external_body]
#[verifier::reject_recursive_types(T)]
pub struct ExWorker<T>(crossbeam::deque::Worker<T>);

/// The jobs waiting in a global queue, oldest first.
pub uninterp spec fn injector_items(q: Injector<JobId>) -> Seq<JobId>;

/// The jobs waiting in a worker's local queue, oldest first.
pub uninterp spec fn worker_items(q: Worker<JobId>) -> Seq<JobId>;

/// How an attempt to steal ended.
#[derive(Clone, Copy, Debug, PartialEq, Eq, Structural)]
pub enum StealOutcome {
    /// The queue was empty.
    Empty,
    /// This job was taken.
    Success(JobId),
    /// The attempt lost a race and took nothing.
    Retry,
}

impl StealOutcome {
    /// The stolen job, if the attempt took one.
    pub fn success(self) -> (r: Option<JobId>)
        ensures
            r == match self {
                StealOutcome::Success(job) => Some(job),
                _ => None::<JobId>,
            },
    {
        match self {
            StealOutcome::Success(job) => Some(job),
            _ => None,
        }
    }
}

/// What a steal may do to a queue holding `before`: take the oldest job, or
/// take nothing. It reports `Empty` only of an empty queue.
pub open spec fn steal_spec(before: Seq<JobId>, outcome: StealOutcome, after: Seq<JobId>) -> bool {
    match outcome {
        StealOutcome::Success(job) => before.len() > 0 && job == before[0] && after
            == before.drop_first(),
        StealOutcome::Empty => before.len() == 0 && after == before,
        StealOutcome::Retry => after == before,
    }
}

/// What a steal does to a queue holding `before` when nobody else is at the
/// queue: it takes the oldest job, or finds the queue empty. It never loses
/// a race.
pub open spec fn sure_steal_spec(before: Seq<JobId>, outcome: StealOutcome, after: Seq<JobId>) -> bool {
    if before.len() > 0 {
        outcome == StealOutcome::Success(before[0]) && after == before.drop_first()
    } else {
        outcome == StealOutcome::Empty && after == before
    }
}

/// `Injector::new`: a global queue with nothing in it.
#[verifier::external_body]
pub(crate) fn injector_new() -> (q: Injector<JobId>)
    ensures
        injector_items(q) == Seq::<JobId>::empty(),
{
    Injector::new()
}

/// `Injector::push`: the job joins the queue behind all that wait there.
#[verifier::external_body]
pub(crate) fn injector_push(q: &mut Injector<JobId>, job: JobId)
    ensures
        injector_items(*final(q)) == injector_items(*old(q)).push(job),
{
    q.push(job)
}

/// `Injector::steal`: takes the oldest job or nothing, as [`steal_spec`]
/// says. The attempt may fail with `Retry` even when nobody else is at the
/// queue, because the queue moves its head with a weak compare-exchange.
#[verifier::external_body]
pub(crate) fn injector_steal(q: &mut Injector<JobId>) -> (outcome: StealOutcome)
    ensures
        steal_spec(injector_items(*old(q)), outcome, injector_items(*final(q))),
{
    match q.steal() {
        Steal::Empty => StealOutcome::Empty,
        Steal::Success(job) => StealOutcome::Success(job),
        Steal::Retry => StealOutcome::Retry,
    }
}

/// `Worker::new_fifo`: a local queue with nothing in it, which hands jobs
/// out oldest first.
#[verifier::external_body]
pub(crate) fn worker_new_fifo() -> (w: Worker<JobId>)
    ensures
        worker_items(w) == Seq::<JobId>::empty(),
{
    Worker::new_fifo()
}

/// `Worker::push`: the job joins the local queue behind all that wait there.
#[verifier::external_body]
pub(crate) fn worker_push(w: &mut Worker<JobId>, job: JobId)
    ensures
        worker_items(*final(w)) == worker_items(*old(w)).push(job),
{
    w.push(job)
}

/// `Worker::pop` on a first-in first-out queue: the oldest job leaves, or
/// the queue is empty and stays so.
#[verifier::external_body]
pub(crate) fn worker_pop(w: &mut Worker<JobId>) -> (r: Option<JobId>)
    ensures
        match r {
            Some(job) => worker_items(*old(w)).len() > 0 && job == worker_items(*old(w))[0]
                && worker_items(*final(w)) == worker_items(*old(w)).drop_first(),
            None => worker_items(*old(w)).len() == 0 && worker_items(*final(w)) == worker_items(
                *old(w),
            ),
        },
{
    w.pop()
}

/// `Worker::stealer` followed by `Stealer::steal`: a steal from the front of
/// a local queue, as a peer does it. The steal answers `Retry` only when the
/// queue's buffer was swapped under it or another taker moved the front
/// first; with the queue borrowed exclusively and no other stealer alive
/// neither can happen, so the outcome is that of [`sure_steal_spec`].
#[verifier::external_body]
pub(crate) fn worker_steal(w: &mut Worker<JobId>) -> (outcome: StealOutcome)
    ensures
        sure_steal_spec(worker_items(*old(w)), outcome, worker_items(*final(w))),
{
    match w.stealer().steal() {
        Steal::Empty => StealOutcome::Empty,
        Steal::Success(job) => StealOutcome::Success(job),
        Steal::Retry => StealOutcome::Retry,
    }
}

} // verus!
