//! The server pool: a fixed pool that knows its workers one by one, so
//! that its owner can wait for each of them when the pool goes down.

use vstd::prelude::*;
use crate::{JobId, SpawnError, WorkerAction};
use crate::job_channel::{ChannelState, JobChannel, TryRecvError};

verus! {

/// One worker of a server pool.
#[derive(Clone, Copy, Debug, PartialEq, Eq, Structural)]
pub struct PoolWorker {
    /// The worker's number.
    pub id: usize,
    /// Whether the worker has not yet left its loop.
    pub running: bool,
}

impl PoolWorker {
    /// Creates the worker with number `id`. It counts as running from the
    /// start.
    pub fn new(id: usize) -> (worker: PoolWorker)
        ensures
            worker == (PoolWorker { id, running: true }),
    {
        PoolWorker { id, running: true }
    }
}

/// What a server pool holds, as mathematics.
pub struct PoolState {
    /// The job channel that the workers share.
    pub channel: ChannelState,
    /// For each worker, by its number, whether it is still running.
    pub running: Seq<bool>,
}

/// The number of `true` entries in `running`.
pub open spec fn count_running(running: Seq<bool>) -> nat
    decreases running.len(),
{
    if running.len() == 0 {
        0
    } else {
        count_running(running.drop_last()) + if running.last() {
            1nat
        } else {
            0nat
        }
    }
}

impl PoolState {
    /// A pool of `size` running workers with an open, empty channel.
    pub open spec fn fresh(size: nat) -> PoolState {
        PoolState { channel: ChannelState::fresh(), running: Seq::new(size, |i: int| true) }
    }

    /// Whether the pool has a worker `id` that is still running.
    pub open spec fn has_running(self, id: int) -> bool {
        0 <= id < self.running.len() && self.running[id]
    }

    /// The pool after `job` has been submitted.
    pub open spec fn execute(self, job: JobId) -> PoolState {
        PoolState { channel: self.channel.send(job), ..self }
    }

    /// The pool after `jobs` have been submitted, one after another.
    pub open spec fn execute_all(self, jobs: Seq<JobId>) -> PoolState {
        PoolState { channel: self.channel.send_all(jobs), ..self }
    }

    /// The pool after the submitting side has been closed.
    pub open spec fn close(self) -> PoolState {
        PoolState { channel: self.channel.close(), ..self }
    }

    /// What worker `id` does at its next step. A worker that has left, or
    /// that the pool does not have, stays out.
    pub open spec fn action(self, id: int) -> WorkerAction {
        if self.has_running(id) {
            self.channel.action()
        } else {
            WorkerAction::Exit
        }
    }

    /// The pool after that step: a job that is run has left the channel, and
    /// a worker that leaves no longer counts as running.
    pub open spec fn step(self, id: int) -> PoolState {
        if self.has_running(id) {
            PoolState {
                channel: self.channel.step(),
                running: if self.channel.action() == WorkerAction::Exit {
                    self.running.update(id, false)
                } else {
                    self.running
                },
            }
        } else {
            self
        }
    }
}

/// A fixed pool with numbered workers.
pub struct ThreadPool {
    workers: Vec<PoolWorker>,
    channel: JobChannel,
}

impl View for ThreadPool {
    type V = PoolState;

    closed spec fn view(&self) -> PoolState {
        PoolState {
            channel: self.channel@,
            running: Seq::new(self.workers@.len(), |i: int| self.workers@[i].running),
        }
    }
}

impl ThreadPool {
    /// Creates a pool of `size` workers, numbered from zero. A pool without
    /// workers would never run anything, so there has to be at least one.
    pub fn new(size: usize) -> (pool: ThreadPool)
        requires
            size > 0,
        ensures
            pool@ == PoolState::fresh(size as nat),
    {
        let mut workers: Vec<PoolWorker> = Vec::with_capacity(size);
        let mut id: usize = 0;
        while id < size
            invariant
                id <= size,
                workers@.len() == id,
                forall|k: int|
                    0 <= k < id ==> #[trigger] workers@[k] == (PoolWorker {
                        id: k as usize,
                        running: true,
                    }),
            decreases size - id,
        {
            workers.push(PoolWorker::new(id));
            id += 1;
        }
        let pool = ThreadPool { workers, channel: JobChannel::new() };
        assert(pool@.running =~= PoolState::fresh(size as nat).running);
        pool
    }

    /// Submits `job`: it joins the channel behind the jobs that wait there.
    /// A pool that has been shut down refuses it.
    pub fn execute(&mut self, job: JobId) -> (r: Result<(), SpawnError>)
        ensures
            old(self)@.channel.closed ==> r == Err::<(), SpawnError>(SpawnError::Closed)
                && final(self)@ == old(self)@,
            !old(self)@.channel.closed ==> r == Ok::<(), SpawnError>(()) && final(self)@
                == old(self)@.execute(job),
    {
        match self.channel.send(job) {
            Ok(()) => Ok(()),
            Err(_) => Err(SpawnError::Closed),
        }
    }

    /// One turn of the loop of worker `id`: the worker runs the oldest job,
    /// or waits for one, or leaves because the pool is shut down and
    /// drained. A worker that leaves is marked as no longer running.
    pub fn worker_step(&mut self, id: usize) -> (action: WorkerAction)
        ensures
            action == old(self)@.action(id as int),
            final(self)@ == old(self)@.step(id as int),
    {
        if id >= self.workers.len() || !self.workers[id].running {
            return WorkerAction::Exit;
        }
        match self.channel.try_recv() {
            Ok(job) => WorkerAction::Run(job),
            Err(TryRecvError::Empty) => WorkerAction::Wait,
            Err(TryRecvError::Disconnected) => {
                self.workers.set(id, PoolWorker { id, running: false });
                assert(self@.running =~= old(self)@.running.update(id as int, false));
                WorkerAction::Exit
            },
        }
    }

    /// Shuts the pool down: nothing more is accepted, the workers run what
    /// is queued and then leave. The pool is torn down once
    /// [`Self::running_workers`] has come to zero.
    pub fn shutdown(&mut self)
        ensures
            final(self)@ == old(self)@.close(),
    {
        self.channel.close();
    }

    /// Worker `id`, if the pool has one of that number.
    pub fn worker(&self, id: usize) -> (r: Option<PoolWorker>)
        ensures
            id >= self@.running.len() ==> r is None,
            id < self@.running.len() ==> r == Some(
                PoolWorker { id, running: self@.running[id as int] },
            ),
    {
        if id < self.workers.len() {
            Some(PoolWorker { id, running: self.workers[id].running })
        } else {
            None
        }
    }

    /// The number of workers the pool was made with.
    pub fn size(&self) -> (n: usize)
        ensures
            n == self@.running.len(),
    {
        self.workers.len()
    }

    /// The number of workers that have not yet left.
    pub fn running_workers(&self) -> (n: usize)
        ensures
            n == count_running(self@.running),
    {
        let mut n: usize = 0;
        let mut i: usize = 0;
        while i < self.workers.len()
            invariant
                i <= self.workers@.len(),
                n <= i,
                n == count_running(self@.running.take(i as int)),
            decreases self.workers@.len() - i,
        {
            let ghost seen = self@.running.take(i as int + 1);
            assert(seen.drop_last() =~= self@.running.take(i as int));
            assert(seen.last() == self.workers@[i as int].running);
            if self.workers[i].running {
                n += 1;
            }
            i += 1;
        }
        assert(self@.running.take(self.workers@.len() as int) =~= self@.running);
        n
    }
}

/// Completion: whatever the number of workers, the jobs submitted to a new
/// pool are handed out in as many worker steps as there are jobs, each job
/// once and in the order of submission, and then the queue is empty.
pub proof fn lemma_completion_count(size: nat, jobs: Seq<JobId>)
    requires
        size >= 1,
    ensures
        ({
            let pool = PoolState::fresh(size).execute_all(jobs);
            &&& pool.channel.handed_out(jobs.len()) == jobs
            &&& pool.channel.after(jobs.len()).queue.len() == 0
        }),
{
    let pool = PoolState::fresh(size).execute_all(jobs);
    ChannelState::fresh().lemma_send_all(jobs);
    assert(ChannelState::fresh().queue + jobs =~= jobs);
    pool.channel.lemma_steps_drain(jobs.len());
}

/// A worker that is marked as having left was running before, so the count
/// of running workers goes down by exactly one.
pub proof fn lemma_leaving_counts_down(running: Seq<bool>, id: int)
    requires
        0 <= id < running.len(),
        running[id],
    ensures
        count_running(running.update(id, false)) + 1 == count_running(running),
    decreases running.len(),
{
    let updated = running.update(id, false);
    if id == running.len() - 1 {
        assert(updated.drop_last() =~= running.drop_last());
    } else {
        assert(updated.drop_last() =~= running.drop_last().update(id, false));
        lemma_leaving_counts_down(running.drop_last(), id);
    }
}

/// Teardown: in a pool that is shut down and drained, the next step of a
/// running worker sends it home, and one worker fewer is running; other
/// workers and the channel are untouched.
pub proof fn lemma_teardown(pool: PoolState, id: int)
    requires
        pool.channel.closed,
        pool.channel.queue.len() == 0,
        pool.has_running(id),
    ensures
        pool.action(id) == WorkerAction::Exit,
        pool.step(id).channel == pool.channel,
        !pool.step(id).has_running(id),
        count_running(pool.step(id).running) + 1 == count_running(pool.running),
{
    lemma_leaving_counts_down(pool.running, id);
}

} // verus!
