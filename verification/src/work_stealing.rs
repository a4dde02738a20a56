//! The work-stealing scheduler: one global queue that takes every
//! submission, one local queue per worker, and the order in which a worker
//! goes looking for its next job.
//!
//! The pool owns all its queues and is stepped through an exclusive borrow.
//! An owner that shares it between threads therefore holds it behind one
//! lock, and every step of every worker goes through that lock: that
//! stealing contends only with the queue stolen from, which the queues
//! themselves would allow, is given up for contracts that say what each
//! step does to each queue.

use vstd::prelude::*;
use vstd::multiset::Multiset;
use crossbeam::deque::{Injector, Worker};
use crate::{JobId, SpawnError, WorkerAction};
use crate::deque::{
    injector_items, injector_new, injector_push, injector_steal, worker_items, worker_new_fifo,
    worker_pop, worker_push, worker_steal, StealOutcome,
};

verus! {

/// A place where a worker finds a job.
#[derive(Clone, Copy, Debug, PartialEq, Eq, Structural)]
pub enum Source {
    /// The worker's own local queue.
    Own,
    /// The global queue.
    Global,
    /// The local queue of the peer with this index.
    Peer(usize),
}

/// A job that a worker has taken, and where it took it from.
#[derive(Clone, Copy, Debug, PartialEq, Eq, Structural)]
pub struct Found {
    /// The job.
    pub job: JobId,
    /// Where it waited.
    pub source: Source,
}

/// Where a worker's search stands after one attempt.
#[derive(Clone, Copy, Debug, PartialEq, Eq, Structural)]
pub enum Lookup {
    /// The attempt took this job: the search is over.
    Found(Found),
    /// The attempt took nothing: try this place next.
    Try(Source),
    /// The attempt took nothing and no place is left: the search is over.
    Miss,
}

/// The first peer of `worker` at or after index `from`, among `workers`
/// workers: `from` itself, unless that is the worker, who is passed over.
pub open spec fn first_peer(worker: int, workers: int, from: int) -> Option<Source> {
    if 0 <= from < workers && from != worker {
        Some(Source::Peer(from as usize))
    } else if 0 <= from && from == worker && from + 1 < workers {
        Some(Source::Peer((from + 1) as usize))
    } else {
        None
    }
}

/// The place where a worker looks after `tried`: after its own queue the
/// global queue, after the global queue the first peer, after a peer the
/// next peer by index. The worker itself is no peer of its own.
pub open spec fn next_source(worker: int, workers: int, tried: Source) -> Option<Source> {
    match tried {
        Source::Own => Some(Source::Global),
        Source::Global => first_peer(worker, workers, 0),
        Source::Peer(k) => first_peer(worker, workers, k + 1),
    }
}

/// What a worker does with the outcome of one attempt. A job that was taken
/// is the worker's to run. After a miss, be the queue empty or the race
/// lost, the worker goes on to the next place in its order, and gives up
/// when there is none.
pub fn after_attempt(
    worker: usize,
    workers: usize,
    tried: Source,
    outcome: StealOutcome,
) -> (next: Lookup)
    ensures
        next == (match outcome {
            StealOutcome::Success(job) => Lookup::Found(Found { job, source: tried }),
            _ => match next_source(worker as int, workers as int, tried) {
                Some(source) => Lookup::Try(source),
                None => Lookup::Miss,
            },
        }),
{
    if let StealOutcome::Success(job) = outcome {
        return Lookup::Found(Found { job, source: tried });
    }
    let from: usize = match tried {
        Source::Own => {
            return Lookup::Try(Source::Global);
        },
        Source::Global => 0,
        Source::Peer(k) => {
            if k >= workers {
                return Lookup::Miss;
            }
            k + 1
        },
    };
    if from < workers && from != worker {
        Lookup::Try(Source::Peer(from))
    } else if from == worker && from < workers && from + 1 < workers {
        Lookup::Try(Source::Peer(from + 1))
    } else {
        Lookup::Miss
    }
}

/// The order of a worker's search: its own queue, then the global queue,
/// then its peers by rising index. The worker is never its own peer. The
/// peer in turn is the one right after the place tried last, or the one
/// after that if the worker itself stands there; so no peer is passed over,
/// and the search ends only when no peer is left.
pub proof fn lemma_search_order(worker: int, workers: int, tried: Source)
    requires
        0 <= worker < workers <= usize::MAX,
    ensures
        next_source(worker, workers, Source::Own) == Some(Source::Global),
        next_source(worker, workers, tried) != Some(Source::Own),
        next_source(worker, workers, tried) == Some(Source::Global) ==> tried == Source::Own,
        next_source(worker, workers, tried) matches Some(Source::Peer(j)) ==> {
            let start = match tried {
                Source::Peer(k) => k + 1,
                _ => 0,
            };
            &&& tried != Source::Own
            &&& j < workers
            &&& j != worker
            &&& (j == start || (start == worker && j == start + 1))
        },
        next_source(worker, workers, tried) is None ==> {
            let start = match tried {
                Source::Peer(k) => k + 1,
                _ => 0,
            };
            &&& tried != Source::Own
            &&& (start >= workers || (start == worker && start + 1 == workers))
        },
{
}

/// What a work-stealing pool holds, as mathematics.
#[verifier::ext_equal]
pub struct StealState {
    /// The global queue, oldest job first.
    pub global: Seq<JobId>,
    /// The local queue of each worker, oldest job first.
    pub locals: Seq<Seq<JobId>>,
    /// Whether the pool has been told to stop.
    pub shutdown: bool,
}

/// The jobs of all the queues in `locals`, counted with multiplicity.
pub open spec fn local_jobs(locals: Seq<Seq<JobId>>) -> Multiset<JobId>
    decreases locals.len(),
{
    if locals.len() == 0 {
        Multiset::empty()
    } else {
        local_jobs(locals.drop_last()).add(locals.last().to_multiset())
    }
}

impl StealState {
    /// A pool of `n` workers that holds no job.
    pub open spec fn fresh(n: nat) -> StealState {
        StealState {
            global: Seq::empty(),
            locals: Seq::new(n, |i: int| Seq::<JobId>::empty()),
            shutdown: false,
        }
    }

    /// The number of workers.
    pub open spec fn workers(self) -> nat {
        self.locals.len()
    }

    /// Every job that waits in the pool, wherever it waits.
    pub open spec fn outstanding(self) -> Multiset<JobId> {
        self.global.to_multiset().add(local_jobs(self.locals))
    }

    /// Whether no queue holds a job.
    pub open spec fn idle(self) -> bool {
        &&& self.global.len() == 0
        &&& forall|k: int| 0 <= k < self.locals.len() ==> (#[trigger] self.locals[k]).len() == 0
    }

    /// The pool after `job` has joined the global queue.
    pub open spec fn inject(self, job: JobId) -> StealState {
        StealState { global: self.global.push(job), ..self }
    }

    /// The pool after `job` has joined the local queue of worker `w`.
    pub open spec fn push_local(self, w: int, job: JobId) -> StealState {
        StealState { locals: self.locals.update(w, self.locals[w].push(job)), ..self }
    }

    /// The pool after the oldest job has left the global queue.
    pub open spec fn take_global(self) -> StealState {
        StealState { global: self.global.drop_first(), ..self }
    }

    /// The pool after the oldest job has left the local queue of worker `k`.
    pub open spec fn take_local(self, k: int) -> StealState {
        StealState { locals: self.locals.update(k, self.locals[k].drop_first()), ..self }
    }

    /// The pool after it has been told to stop. Queued jobs stay where they
    /// are; no worker will come for them.
    pub open spec fn stop(self) -> StealState {
        StealState { shutdown: true, ..self }
    }

    /// Whether the books are balanced: whether the jobs `submitted` so far
    /// are those `handed` to workers so far and those that still wait.
    pub open spec fn balanced(self, submitted: Multiset<JobId>, handed: Multiset<JobId>) -> bool {
        submitted == handed.add(self.outstanding())
    }

    /// Whether no peer of worker `w` with an index below `k` holds a job.
    pub open spec fn peers_empty_before(self, w: int, k: int) -> bool {
        forall|j: int|
            0 <= j < k && j < self.locals.len() && j != w ==> (#[trigger] self.locals[j]).len()
                == 0
    }

    /// Whether neither worker `w` nor any of its peers holds a job in its
    /// local queue.
    pub open spec fn locals_empty(self, w: int) -> bool {
        self.locals[w].len() == 0 && self.peers_empty_before(w, self.locals.len() as int)
    }

    /// Whether `post` is the pool after worker `w` has taken `job` from
    /// `source`.
    ///
    /// A worker serves its own queue first. Only when that is empty does it
    /// take the oldest job of the global queue, and only when it got nothing
    /// there does it take the oldest job of a peer: of the first peer, by
    /// index, that has one. It never steals from itself.
    pub open spec fn took_from(self, w: int, source: Source, job: JobId, post: StealState) -> bool {
        match source {
            Source::Own => self.locals[w].len() > 0 && job == self.locals[w][0] && post
                == self.take_local(w),
            Source::Global => self.locals[w].len() == 0 && self.global.len() > 0 && job
                == self.global[0] && post == self.take_global(),
            Source::Peer(k) => self.locals[w].len() == 0 && k < self.locals.len() && k != w
                && self.peers_empty_before(w, k as int) && self.locals[k as int].len() > 0 && job
                == self.locals[k as int][0] && post == self.take_local(k as int),
        }
    }

    /// Whether `post` is the pool after worker `w` has made an attempt on
    /// `source` that ended with `outcome`. An attempt on a local queue takes
    /// the oldest job if there is one. An attempt on the global queue takes
    /// the oldest job or misses.
    pub open spec fn attempted(self, w: int, source: Source, outcome: StealOutcome, post: StealState) -> bool {
        match source {
            Source::Own => if self.locals[w].len() > 0 {
                outcome == StealOutcome::Success(self.locals[w][0]) && post == self.take_local(w)
            } else {
                outcome == StealOutcome::Empty && post == self
            },
            Source::Global => match outcome {
                StealOutcome::Success(job) => self.global.len() > 0 && job == self.global[0]
                    && post == self.take_global(),
                StealOutcome::Empty => self.global.len() == 0 && post == self,
                StealOutcome::Retry => post == self,
            },
            Source::Peer(k) => if self.locals[k as int].len() > 0 {
                outcome == StealOutcome::Success(self.locals[k as int][0]) && post
                    == self.take_local(k as int)
            } else {
                outcome == StealOutcome::Empty && post == self
            },
        }
    }

    /// Whether a search of worker `w` that has come to `source` has gone by
    /// its order: the own queue was found empty before anything else was
    /// tried, and every peer before the one in turn was found empty.
    pub open spec fn reached(self, w: int, source: Source) -> bool {
        match source {
            Source::Own => true,
            Source::Global => self.locals[w].len() == 0,
            Source::Peer(k) => self.locals[w].len() == 0 && k < self.locals.len() && k != w
                && self.peers_empty_before(w, k as int),
        }
    }

    /// Whether `post` is the pool after worker `w` has taken `job` from it,
    /// wherever the job waited.
    pub open spec fn took(self, w: int, job: JobId, post: StealState) -> bool {
        exists|source: Source| self.took_from(w, source, job, post)
    }
}

/// A work-stealing pool: the queues and the stop flag.
pub struct WorkStealingThreadPool {
    inject: Injector<JobId>,
    locals: Vec<Worker<JobId>>,
    shutdown: bool,
}

impl View for WorkStealingThreadPool {
    type V = StealState;

    closed spec fn view(&self) -> StealState {
        StealState {
            global: injector_items(self.inject),
            locals: Seq::new(self.locals@.len(), |i: int| worker_items(self.locals@[i])),
            shutdown: self.shutdown,
        }
    }
}

impl WorkStealingThreadPool {
    /// Creates a pool for `num_threads` workers: an empty local queue for
    /// each, and an empty global queue.
    pub fn new(num_threads: usize) -> (pool: Self)
        requires
            num_threads > 0,
        ensures
            pool@ == StealState::fresh(num_threads as nat),
    {
        let inject = injector_new();
        let mut locals: Vec<Worker<JobId>> = Vec::with_capacity(num_threads);
        let mut i: usize = 0;
        while i < num_threads
            invariant
                i <= num_threads,
                locals@.len() == i,
                forall|k: int| 0 <= k < i ==> worker_items(#[trigger] locals@[k]) == Seq::<JobId>::empty(),
            decreases num_threads - i,
        {
            locals.push(worker_new_fifo());
            i += 1;
        }
        let pool = WorkStealingThreadPool { inject, locals, shutdown: false };
        assert(pool@ =~~= StealState::fresh(num_threads as nat));
        pool
    }

    /// The number of workers the pool was made for.
    pub fn workers(&self) -> (n: usize)
        ensures
            n == self@.workers(),
    {
        self.locals.len()
    }

    /// Whether the pool has been told to stop.
    pub fn is_shutdown(&self) -> (b: bool)
        ensures
            b == self@.shutdown,
    {
        self.shutdown
    }

    /// Submits `job` to the global queue, whoever the caller is. A pool that
    /// has been told to stop refuses it.
    pub fn spawn(&mut self, job: JobId) -> (r: Result<(), SpawnError>)
        ensures
            old(self)@.shutdown ==> r == Err::<(), SpawnError>(SpawnError::Closed) && final(self)@
                == old(self)@,
            !old(self)@.shutdown ==> r == Ok::<(), SpawnError>(()) && final(self)@
                == old(self)@.inject(job),
    {
        if self.shutdown {
            return Err(SpawnError::Closed);
        }
        injector_push(&mut self.inject, job);
        assert(self@ =~~= old(self)@.inject(job));
        Ok(())
    }

    /// Puts `job` on the local queue of `worker`, as a job running there does
    /// for work of its own making.
    pub fn push_local(&mut self, worker: usize, job: JobId) -> (r: Result<(), SpawnError>)
        ensures
            old(self)@.shutdown ==> r == Err::<(), SpawnError>(SpawnError::Closed) && final(self)@
                == old(self)@,
            !old(self)@.shutdown && worker >= old(self)@.workers() ==> r == Err::<(), SpawnError>(
                SpawnError::NoSuchWorker,
            ) && final(self)@ == old(self)@,
            !old(self)@.shutdown && worker < old(self)@.workers() ==> r == Ok::<(), SpawnError>(())
                && final(self)@ == old(self)@.push_local(worker as int, job),
    {
        if self.shutdown {
            return Err(SpawnError::Closed);
        }
        if worker >= self.locals.len() {
            return Err(SpawnError::NoSuchWorker);
        }
        worker_push(&mut self.locals[worker], job);
        assert(self@ =~~= old(self)@.push_local(worker as int, job));
        Ok(())
    }

    /// Makes one attempt of `worker` on `source`: a pop from its own queue,
    /// a steal from the global queue, or a steal from a peer.
    fn attempt(&mut self, worker: usize, source: Source) -> (outcome: StealOutcome)
        requires
            worker < old(self)@.workers(),
            source matches Source::Peer(k) ==> k < old(self)@.workers(),
        ensures
            old(self)@.attempted(worker as int, source, outcome, final(self)@),
    {
        match source {
            Source::Own => {
                match worker_pop(&mut self.locals[worker]) {
                    Some(job) => {
                        assert(self@ =~~= old(self)@.take_local(worker as int));
                        StealOutcome::Success(job)
                    },
                    None => {
                        assert(self@ =~~= old(self)@);
                        StealOutcome::Empty
                    },
                }
            },
            Source::Global => {
                let outcome = injector_steal(&mut self.inject);
                proof {
                    if outcome is Success {
                        assert(self@ =~~= old(self)@.take_global());
                    } else {
                        assert(self@ =~~= old(self)@);
                    }
                }
                outcome
            },
            Source::Peer(k) => {
                let outcome = worker_steal(&mut self.locals[k]);
                proof {
                    if outcome is Success {
                        assert(self@ =~~= old(self)@.take_local(k as int));
                    } else {
                        assert(self@ =~~= old(self)@);
                    }
                }
                outcome
            },
        }
    }

    /// Looks for the next job of `worker`: first in its own queue, then in
    /// the global queue, then in the queues of its peers, in the order of
    /// their indices. Each attempt is made as [`after_attempt`] says: a job
    /// that was taken ends the search, and a miss leads on to the next
    /// place. A steal from the global queue can miss although a job waits
    /// there, so `None` does not mean that the pool is idle. It does mean
    /// that nothing was taken and that no local queue, the worker's own or
    /// a peer's, holds a job. A worker that the pool does not have finds
    /// nothing.
    pub fn find_job(&mut self, worker: usize) -> (r: Option<Found>)
        ensures
            worker >= old(self)@.workers() ==> r is None && final(self)@ == old(self)@,
            worker < old(self)@.workers() ==> match r {
                Some(found) => old(self)@.took_from(
                    worker as int,
                    found.source,
                    found.job,
                    final(self)@,
                ),
                None => final(self)@ == old(self)@ && old(self)@.locals_empty(worker as int),
            },
    {
        let n = self.locals.len();
        if worker >= n {
            return None;
        }
        let mut source = Source::Own;
        loop
            invariant
                worker < n,
                n == self.locals@.len(),
                self@ == old(self)@,
                old(self)@.reached(worker as int, source),
            decreases
                    match source {
                        Source::Own => n + 2,
                        Source::Global => n + 1,
                        Source::Peer(k) => n - k,
                    },
        {
            let outcome = self.attempt(worker, source);
            match after_attempt(worker, n, source, outcome) {
                Lookup::Found(found) => {
                    return Some(found);
                },
                Lookup::Try(next) => {
                    source = next;
                },
                Lookup::Miss => {
                    return None;
                },
            }
        }
    }

    /// One turn of the loop of `worker`. A pool that has been told to stop,
    /// and a worker that the pool does not have, are sent home. Otherwise the
    /// worker runs the job that [`Self::find_job`] found, or waits.
    pub fn worker_step(&mut self, worker: usize) -> (action: WorkerAction)
        ensures
            old(self)@.shutdown || worker >= old(self)@.workers() ==> action == WorkerAction::Exit
                && final(self)@ == old(self)@,
            !old(self)@.shutdown && worker < old(self)@.workers() ==> match action {
                WorkerAction::Run(job) => old(self)@.took(worker as int, job, final(self)@),
                WorkerAction::Wait => final(self)@ == old(self)@ && old(self)@.locals_empty(
                    worker as int,
                ),
                WorkerAction::Exit => false,
            },
    {
        if self.shutdown || worker >= self.locals.len() {
            return WorkerAction::Exit;
        }
        match self.find_job(worker) {
            Some(found) => WorkerAction::Run(found.job),
            None => WorkerAction::Wait,
        }
    }

    /// Tells the pool to stop. Workers leave at their next step; a job that
    /// is running is not interrupted, and jobs still queued are abandoned.
    pub fn shutdown(&mut self)
        ensures
            final(self)@ == old(self)@.stop(),
    {
        self.shutdown = true;
        assert(self@ =~~= old(self)@.stop());
    }
}

/// The oldest job of a queue and the rest of it make up the queue.
proof fn lemma_front_and_rest(q: Seq<JobId>)
    requires
        q.len() > 0,
    ensures
        q.to_multiset() == q.drop_first().to_multiset().insert(q[0]),
{
    broadcast use vstd::seq_lib::group_to_multiset_ensures;

    assert(q.remove(0) =~= q.drop_first());
    assert(q.contains(q[0]));
    assert(q.to_multiset() =~= q.to_multiset().remove(q[0]).insert(q[0]));
}

/// Replacing one local queue changes the jobs of all of them by the
/// difference between the new queue and the old one.
proof fn lemma_local_jobs_update(locals: Seq<Seq<JobId>>, k: int, q: Seq<JobId>, v: JobId)
    requires
        0 <= k < locals.len(),
    ensures
        local_jobs(locals.update(k, q)).count(v) + locals[k].to_multiset().count(v) == local_jobs(
            locals,
        ).count(v) + q.to_multiset().count(v),
    decreases locals.len(),
{
    let updated = locals.update(k, q);
    if k == locals.len() - 1 {
        assert(updated.drop_last() =~= locals.drop_last());
        assert(updated.last() == q);
    } else {
        assert(updated.drop_last() =~= locals.drop_last().update(k, q));
        assert(updated.last() == locals.last());
        assert(locals.drop_last()[k] == locals[k]);
        lemma_local_jobs_update(locals.drop_last(), k, q, v);
    }
}

/// Local queues that are all empty hold no job, and only they.
proof fn lemma_local_jobs_empty(locals: Seq<Seq<JobId>>)
    ensures
        local_jobs(locals).len() == 0 <==> forall|k: int|
            0 <= k < locals.len() ==> (#[trigger] locals[k]).len() == 0,
    decreases locals.len(),
{
    broadcast use vstd::seq_lib::group_to_multiset_ensures;

    if locals.len() > 0 {
        let rest = locals.drop_last();
        lemma_local_jobs_empty(rest);
        assert(forall|k: int| 0 <= k < rest.len() ==> rest[k] == locals[k]);
        if local_jobs(locals).len() == 0 {
            assert forall|k: int| 0 <= k < locals.len() implies (#[trigger] locals[k]).len()
                == 0 by {
                if k < rest.len() {
                    assert(rest[k].len() == 0);
                }
            }
        }
        if forall|k: int| 0 <= k < locals.len() ==> (#[trigger] locals[k]).len() == 0 {
            assert(locals.last().len() == 0);
            assert forall|k: int| 0 <= k < rest.len() implies (#[trigger] rest[k]).len() == 0 by {
                assert(locals[k].len() == 0);
            }
        }
    }
}

impl StealState {
    /// Submitting a job adds that one job to the outstanding work.
    pub proof fn lemma_inject_adds_one(self, job: JobId)
        ensures
            self.inject(job).outstanding() == self.outstanding().insert(job),
            self.inject(job).workers() == self.workers(),
    {
        broadcast use vstd::seq_lib::group_to_multiset_ensures;

        assert(self.inject(job).outstanding() =~= self.outstanding().insert(job));
    }

    /// Pushing a job on a local queue adds that one job to the outstanding
    /// work.
    pub proof fn lemma_push_local_adds_one(self, w: int, job: JobId)
        requires
            0 <= w < self.workers(),
        ensures
            self.push_local(w, job).outstanding() == self.outstanding().insert(job),
            self.push_local(w, job).workers() == self.workers(),
    {
        broadcast use vstd::seq_lib::group_to_multiset_ensures;

        assert forall|v: JobId|
            self.push_local(w, job).outstanding().count(v) == self.outstanding().insert(job).count(
                v,
            ) by {
            lemma_local_jobs_update(self.locals, w, self.locals[w].push(job), v);
        }
        assert(self.push_local(w, job).outstanding() =~= self.outstanding().insert(job));
    }

    /// Work is conserved by the stealing protocol: whatever route a job takes
    /// to a worker, the outstanding work before is the outstanding work
    /// after plus that one job. No job is duplicated and none is dropped.
    pub proof fn lemma_take_conserves(self, w: int, job: JobId, post: StealState)
        requires
            0 <= w < self.workers(),
            self.took(w, job, post),
        ensures
            self.outstanding() == post.outstanding().insert(job),
            post.workers() == self.workers(),
            post.shutdown == self.shutdown,
    {
        let source = choose|source: Source| self.took_from(w, source, job, post);
        match source {
            Source::Own => {
                self.lemma_take_local(w);
            },
            Source::Global => {
                lemma_front_and_rest(self.global);
                assert(self.outstanding() =~= post.outstanding().insert(job));
            },
            Source::Peer(k) => {
                self.lemma_take_local(k as int);
            },
        }
    }

    proof fn lemma_take_local(self, k: int)
        requires
            0 <= k < self.workers(),
            self.locals[k].len() > 0,
        ensures
            self.outstanding() == self.take_local(k).outstanding().insert(self.locals[k][0]),
    {
        lemma_front_and_rest(self.locals[k]);
        assert forall|v: JobId|
            self.outstanding().count(v) == self.take_local(k).outstanding().insert(
                self.locals[k][0],
            ).count(v) by {
            lemma_local_jobs_update(self.locals, k, self.locals[k].drop_first(), v);
        }
        assert(self.outstanding() =~= self.take_local(k).outstanding().insert(self.locals[k][0]));
    }

    /// A pool is idle exactly when no work is outstanding.
    pub proof fn lemma_idle_iff_nothing_outstanding(self)
        ensures
            self.idle() <==> self.outstanding().len() == 0,
    {
        broadcast use vstd::seq_lib::group_to_multiset_ensures;

        lemma_local_jobs_empty(self.locals);
    }

    /// Only a steal from the global queue misses: when a worker finds
    /// nothing, no local queue holds a job, so whatever is outstanding waits
    /// in the global queue, and if that is empty too the pool is idle.
    pub proof fn lemma_only_the_global_queue_is_missed(self, w: int)
        requires
            0 <= w < self.workers(),
            self.locals_empty(w),
        ensures
            self.outstanding() == self.global.to_multiset(),
            self.global.len() == 0 ==> self.idle(),
    {
        broadcast use vstd::seq_lib::group_to_multiset_ensures;

        assert forall|k: int| 0 <= k < self.locals.len() implies (#[trigger] self.locals[k]).len()
            == 0 by {
            if k != w {
                assert(self.peers_empty_before(w, self.locals.len() as int));
            }
        }
        lemma_local_jobs_empty(self.locals);
        assert(local_jobs(self.locals) =~= Multiset::<JobId>::empty());
        assert(self.outstanding() =~= self.global.to_multiset());
    }

    /// A fresh pool is idle.
    pub proof fn lemma_fresh_is_idle(n: nat)
        ensures
            StealState::fresh(n).idle(),
            StealState::fresh(n).workers() == n,
            StealState::fresh(n).outstanding() == Multiset::<JobId>::empty(),
    {
        let s = StealState::fresh(n);
        s.lemma_idle_iff_nothing_outstanding();
        assert(s.outstanding() =~= Multiset::<JobId>::empty());
    }
}

impl StealState {
    /// The books stay balanced: each submission adds one job to those
    /// submitted, each job that a worker takes adds that job to those handed
    /// out, and a step that finds nothing changes nothing.
    pub proof fn lemma_balance_is_kept(
        self,
        submitted: Multiset<JobId>,
        handed: Multiset<JobId>,
        w: int,
        job: JobId,
        post: StealState,
    )
        requires
            self.balanced(submitted, handed),
            0 <= w < self.workers(),
        ensures
            self.inject(job).balanced(submitted.insert(job), handed),
            self.push_local(w, job).balanced(submitted.insert(job), handed),
            self.took(w, job, post) ==> post.balanced(submitted, handed.insert(job)),
            self.stop().balanced(submitted, handed),
    {
        self.lemma_inject_adds_one(job);
        self.lemma_push_local_adds_one(w, job);
        assert(submitted.insert(job) =~= handed.add(self.outstanding().insert(job)));
        if self.took(w, job, post) {
            self.lemma_take_conserves(w, job, post);
            assert(submitted =~= handed.insert(job).add(post.outstanding()));
        }
    }

    /// Completion: once the pool is idle, the jobs that were handed to
    /// workers are exactly the jobs that were submitted, each as often as
    /// it was submitted: none twice, none left out.
    pub proof fn lemma_completion_count(self, submitted: Multiset<JobId>, handed: Multiset<JobId>)
        requires
            self.balanced(submitted, handed),
            self.idle(),
        ensures
            handed == submitted,
            handed.len() == submitted.len(),
    {
        self.lemma_idle_iff_nothing_outstanding();
        assert(self.outstanding() =~= Multiset::<JobId>::empty());
        assert(handed.add(Multiset::<JobId>::empty()) =~= handed);
    }
}

} // verus!
