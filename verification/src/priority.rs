//! The priority scheduler: workers take the most urgent job first. A lower
//! priority number is more urgent.

use vstd::prelude::*;
use vstd::std_specs::cmp::{PartialEqSpecImpl, PartialOrdSpecImpl};
use std::cmp::Ordering;
use crate::{JobId, SpawnError, WorkerAction};

verus! {

/// A job and the priority it was submitted with. Lower numbers run first.
///
/// Entries are compared by urgency alone: two entries are `==` when their
/// priorities are equal, whatever their jobs, and an entry is greater than
/// another when it is more urgent, that is, when its priority number is
/// lower.
#[derive(Clone, Copy, Debug)]
pub struct PrioritizedJob {
    /// The priority: the lower, the more urgent.
    pub priority: u32,
    /// The job.
    pub job: JobId,
}

impl PartialEq for PrioritizedJob {
    fn eq(&self, other: &Self) -> (r: bool) {
        self.priority == other.priority
    }
}

impl PartialEqSpecImpl for PrioritizedJob {
    open spec fn obeys_eq_spec() -> bool {
        true
    }

    open spec fn eq_spec(&self, other: &Self) -> bool {
        self.priority == other.priority
    }
}

impl Eq for PrioritizedJob {

}

impl PartialOrd for PrioritizedJob {
    fn partial_cmp(&self, other: &Self) -> (r: Option<Ordering>) {
        if self.priority < other.priority {
            Some(Ordering::Greater)
        } else if self.priority > other.priority {
            Some(Ordering::Less)
        } else {
            Some(Ordering::Equal)
        }
    }
}

impl PartialOrdSpecImpl for PrioritizedJob {
    open spec fn obeys_partial_cmp_spec() -> bool {
        true
    }

    open spec fn partial_cmp_spec(&self, other: &Self) -> Option<Ordering> {
        if self.priority < other.priority {
            Some(Ordering::Greater)
        } else if self.priority > other.priority {
            Some(Ordering::Less)
        } else {
            Some(Ordering::Equal)
        }
    }
}

impl PrioritizedJob {
    /// Whether this job is strictly more urgent than `other`.
    pub fn outranks(&self, other: &PrioritizedJob) -> (b: bool)
        ensures
            b == (self.priority < other.priority),
    {
        self.priority < other.priority
    }
}

/// The position in `s` of the entry that a worker takes next: the most
/// urgent one, and among equally urgent ones the one submitted first.
pub open spec fn first_min(s: Seq<PrioritizedJob>) -> int
    decreases s.len(),
{
    if s.len() <= 1 {
        0
    } else {
        let m = first_min(s.drop_last());
        if s.last().priority < s[m].priority {
            s.len() - 1
        } else {
            m
        }
    }
}

/// Whether the priorities in `s` never go down from one entry to a later
/// one.
pub open spec fn by_urgency(s: Seq<PrioritizedJob>) -> bool {
    forall|i: int, j: int| 0 <= i < j < s.len() ==> s[i].priority <= s[j].priority
}

/// What a priority scheduler holds, as mathematics.
pub struct PriorityState {
    /// The jobs that wait, in the order of their submission.
    pub pending: Seq<PrioritizedJob>,
    /// Whether the scheduler has been shut down.
    pub closed: bool,
    /// The number of workers.
    pub threads: nat,
}

impl PriorityState {
    /// A scheduler of `threads` workers that holds no job.
    pub open spec fn fresh(threads: nat) -> PriorityState {
        PriorityState { pending: Seq::empty(), closed: false, threads }
    }

    /// The scheduler after `job` has been submitted with `priority`.
    pub open spec fn spawn(self, job: JobId, priority: u32) -> PriorityState {
        PriorityState { pending: self.pending.push(PrioritizedJob { priority, job }), ..self }
    }

    /// The scheduler after `entries` have been submitted, one after another.
    pub open spec fn spawn_all(self, entries: Seq<PrioritizedJob>) -> PriorityState
        decreases entries.len(),
    {
        if entries.len() == 0 {
            self
        } else {
            self.spawn_all(entries.drop_last()).spawn(entries.last().job, entries.last().priority)
        }
    }

    /// The scheduler after it has been shut down.
    pub open spec fn close(self) -> PriorityState {
        PriorityState { closed: true, ..self }
    }

    /// The entry that a worker takes next. Meaningful when a job waits.
    pub open spec fn next(self) -> PrioritizedJob {
        self.pending[first_min(self.pending)]
    }

    /// What a worker does at its next step: it runs the most urgent job, or
    /// waits for one, or leaves because the scheduler is shut down and
    /// drained.
    pub open spec fn action(self) -> WorkerAction {
        if self.pending.len() > 0 {
            WorkerAction::Run(self.next().job)
        } else if self.closed {
            WorkerAction::Exit
        } else {
            WorkerAction::Wait
        }
    }

    /// The scheduler after that step: the job that is run has left it.
    pub open spec fn step(self) -> PriorityState {
        if self.pending.len() > 0 {
            PriorityState { pending: self.pending.remove(first_min(self.pending)), ..self }
        } else {
            self
        }
    }

    /// The scheduler after `n` worker steps.
    pub open spec fn after(self, n: nat) -> PriorityState
        decreases n,
    {
        if n == 0 {
            self
        } else {
            self.step().after((n - 1) as nat)
        }
    }

    /// The entries that `n` worker steps hand out to be run, in the order
    /// of the steps.
    pub open spec fn handed_out(self, n: nat) -> Seq<PrioritizedJob>
        decreases n,
    {
        if n == 0 || self.pending.len() == 0 {
            Seq::empty()
        } else {
            seq![self.next()] + self.step().handed_out((n - 1) as nat)
        }
    }
}

/// A scheduler whose workers take jobs in the order of their priority.
pub struct PriorityThreadPool {
    queue: Vec<PrioritizedJob>,
    closed: bool,
    num_threads: usize,
}

impl View for PriorityThreadPool {
    type V = PriorityState;

    closed spec fn view(&self) -> PriorityState {
        PriorityState {
            pending: self.queue@,
            closed: self.closed,
            threads: self.num_threads as nat,
        }
    }
}

impl PriorityThreadPool {
    /// Creates a scheduler for `num_threads` workers. A scheduler without
    /// workers would never run anything, so there has to be at least one.
    pub fn new(num_threads: usize) -> (pool: Self)
        requires
            num_threads > 0,
        ensures
            pool@ == PriorityState::fresh(num_threads as nat),
    {
        PriorityThreadPool { queue: Vec::new(), closed: false, num_threads }
    }

    /// Submits `job` with `priority`; the lower the number, the sooner it
    /// runs. A scheduler that has been shut down refuses it.
    pub fn spawn(&mut self, job: JobId, priority: u32) -> (r: Result<(), SpawnError>)
        ensures
            old(self)@.closed ==> r == Err::<(), SpawnError>(SpawnError::Closed) && final(self)@
                == old(self)@,
            !old(self)@.closed ==> r == Ok::<(), SpawnError>(()) && final(self)@
                == old(self)@.spawn(job, priority),
    {
        if self.closed {
            return Err(SpawnError::Closed);
        }
        self.queue.push(PrioritizedJob { priority, job });
        Ok(())
    }

    /// One turn of a worker's loop: the worker runs the most urgent job
    /// that waits, or waits for one, or leaves because the scheduler is shut
    /// down and drained. If several jobs are equally urgent, this scheduler
    /// takes the one submitted first; a priority scheduler owes no order
    /// among equals, so callers do well not to build on it.
    pub fn worker_step(&mut self) -> (action: WorkerAction)
        ensures
            action == old(self)@.action(),
            final(self)@ == old(self)@.step(),
    {
        let len = self.queue.len();
        if len == 0 {
            return if self.closed {
                WorkerAction::Exit
            } else {
                WorkerAction::Wait
            };
        }
        let mut best: usize = 0;
        let mut i: usize = 1;
        assert(self.queue@.take(1).len() == 1);
        while i < len
            invariant
                1 <= i <= len,
                len == self.queue@.len(),
                best < i,
                best == first_min(self.queue@.take(i as int)),
            decreases len - i,
        {
            let ghost seen = self.queue@.take(i as int + 1);
            assert(seen.drop_last() =~= self.queue@.take(i as int));
            assert(seen.last() == self.queue@[i as int]);
            assert(seen[best as int] == self.queue@[best as int]);
            if self.queue[i].outranks(&self.queue[best]) {
                best = i;
            }
            i += 1;
        }
        assert(self.queue@.take(len as int) =~= self.queue@);
        let entry = self.queue.remove(best);
        WorkerAction::Run(entry.job)
    }

    /// Shuts the scheduler down: nothing more is accepted, the workers run
    /// what is queued and then leave.
    pub fn shutdown(&mut self)
        ensures
            final(self)@ == old(self)@.close(),
    {
        self.closed = true;
    }

    /// The number of workers.
    pub fn threads(&self) -> (n: usize)
        ensures
            n == self@.threads,
    {
        self.num_threads
    }

    /// The number of jobs waiting for a worker.
    pub fn queued(&self) -> (n: usize)
        ensures
            n == self@.pending.len(),
    {
        self.queue.len()
    }
}

/// The entry that a worker takes is in the queue, no entry is more urgent,
/// and every entry submitted before it is less urgent.
pub proof fn lemma_first_min(s: Seq<PrioritizedJob>)
    requires
        s.len() > 0,
    ensures
        0 <= first_min(s) < s.len(),
        forall|j: int| 0 <= j < s.len() ==> s[first_min(s)].priority <= (#[trigger] s[j]).priority,
        forall|j: int| 0 <= j < first_min(s) ==> s[first_min(s)].priority < (#[trigger] s[j]).priority,
    decreases s.len(),
{
    if s.len() > 1 {
        let rest = s.drop_last();
        lemma_first_min(rest);
        assert(forall|j: int| 0 <= j < rest.len() ==> rest[j] == s[j]);
    }
}

impl PriorityState {
    /// A dequeue yields the minimum: the job that a worker is given has the
    /// lowest priority number of all that wait at that moment, and it alone
    /// leaves the queue.
    pub proof fn lemma_step_takes_minimum(self)
        requires
            self.pending.len() > 0,
        ensures
            self.pending.contains(self.next()),
            self.action() == WorkerAction::Run(self.next().job),
            forall|j: int|
                0 <= j < self.pending.len() ==> self.next().priority <= (
                #[trigger] self.pending[j]).priority,
            self.pending.to_multiset() == self.step().pending.to_multiset().insert(self.next()),
            self.step().pending.len() == self.pending.len() - 1,
    {
        broadcast use vstd::seq_lib::group_to_multiset_ensures;

        lemma_first_min(self.pending);
        let k = first_min(self.pending);
        assert(self.pending[k] == self.next());
        assert(self.pending.to_multiset() =~= self.pending.to_multiset().remove(
            self.next(),
        ).insert(self.next()));
    }

    /// Entries submitted to a scheduler queue up behind those that wait
    /// there.
    pub proof fn lemma_spawn_all(self, entries: Seq<PrioritizedJob>)
        ensures
            self.spawn_all(entries).pending == self.pending + entries,
            self.spawn_all(entries).closed == self.closed,
            self.spawn_all(entries).threads == self.threads,
        decreases entries.len(),
    {
        if entries.len() > 0 {
            self.lemma_spawn_all(entries.drop_last());
            assert(entries.drop_last().push(entries.last()) =~= entries);
        }
        assert(self.spawn_all(entries).pending =~= self.pending + entries);
    }

    /// Workers drain the scheduler by urgency: as many steps as jobs are
    /// queued hand out exactly those jobs, each once, never a less urgent
    /// one before a more urgent one, and leave the queue empty.
    pub proof fn lemma_steps_drain_by_urgency(self, n: nat)
        requires
            n >= self.pending.len(),
        ensures
            self.handed_out(n).to_multiset() == self.pending.to_multiset(),
            self.handed_out(n).len() == self.pending.len(),
            by_urgency(self.handed_out(n)),
            self.after(n).pending.len() == 0,
        decreases n,
    {
        broadcast use vstd::seq_lib::group_to_multiset_ensures;

        if n == 0 {
            assert(self.pending =~= Seq::empty());
        } else if self.pending.len() == 0 {
            self.step().lemma_steps_drain_by_urgency((n - 1) as nat);
            assert(self.pending =~= Seq::empty());
        } else {
            let first = self.next();
            let rest = self.step().handed_out((n - 1) as nat);
            let out = self.handed_out(n);
            self.lemma_step_takes_minimum();
            self.step().lemma_steps_drain_by_urgency((n - 1) as nat);
            assert(out =~= seq![first] + rest);
            assert(out.drop_first() =~= rest);
            assert(out.to_multiset() =~= rest.to_multiset().insert(first)) by {
                assert(out.remove(0) =~= rest);
                assert(out.contains(out[0]));
                assert(out.to_multiset() =~= out.to_multiset().remove(out[0]).insert(out[0]));
            }
            assert forall|i: int, j: int| 0 <= i < j < out.len() implies out[i].priority
                <= out[j].priority by {
                if i == 0 {
                    let later = rest[j - 1];
                    assert(rest.contains(later));
                    assert(rest.to_multiset().count(later) > 0);
                    assert(self.step().pending.to_multiset().count(later) > 0);
                    assert(self.pending.to_multiset().count(later) > 0);
                    assert(self.pending.contains(later));
                    let at = choose|at: int| 0 <= at < self.pending.len() && self.pending[at] == later;
                    assert(first.priority <= self.pending[at].priority);
                } else {
                    assert(rest[i - 1].priority <= rest[j - 1].priority);
                }
            }
        }
    }
}

/// Completion: whatever the number of workers, the jobs submitted to a new
/// scheduler are handed out in as many worker steps as there are jobs, each
/// job once and by urgency, and then the queue is empty.
pub proof fn lemma_completion_count(threads: nat, entries: Seq<PrioritizedJob>)
    requires
        threads >= 1,
    ensures
        ({
            let pool = PriorityState::fresh(threads).spawn_all(entries);
            &&& pool.handed_out(entries.len()).to_multiset() == entries.to_multiset()
            &&& pool.handed_out(entries.len()).len() == entries.len()
            &&& by_urgency(pool.handed_out(entries.len()))
            &&& pool.after(entries.len()).pending.len() == 0
        }),
{
    let fresh = PriorityState::fresh(threads);
    fresh.lemma_spawn_all(entries);
    assert(fresh.pending + entries =~= entries);
    fresh.spawn_all(entries).lemma_steps_drain_by_urgency(entries.len());
}

} // verus!
