//! The fixed pool: a set number of workers that drain one job channel.

use vstd::prelude::*;
use crate::{JobId, SpawnError, WorkerAction};
use crate::job_channel::{ChannelState, JobChannel, TryRecvError};

verus! {

/// What a fixed pool holds, as mathematics.
pub struct PoolState {
    /// The job channel that the workers share.
    pub channel: ChannelState,
    /// The number of workers.
    pub threads: nat,
}

impl PoolState {
    /// A pool of `threads` workers with an open, empty channel.
    pub open spec fn fresh(threads: nat) -> PoolState {
        PoolState { channel: ChannelState::fresh(), threads }
    }

    /// The pool after `job` has been submitted.
    pub open spec fn spawn(self, job: JobId) -> PoolState {
        PoolState { channel: self.channel.send(job), ..self }
    }

    /// The pool after `jobs` have been submitted, one after another.
    pub open spec fn spawn_all(self, jobs: Seq<JobId>) -> PoolState {
        PoolState { channel: self.channel.send_all(jobs), ..self }
    }

    /// The pool after one step of any of its workers.
    pub open spec fn step(self) -> PoolState {
        PoolState { channel: self.channel.step(), ..self }
    }

    /// The pool after the submitting side has been closed.
    pub open spec fn close(self) -> PoolState {
        PoolState { channel: self.channel.close(), ..self }
    }
}

/// A pool of a fixed number of workers around one job channel.
pub struct ThreadPool {
    channel: JobChannel,
    threads: u32,
}

impl View for ThreadPool {
    type V = PoolState;

    closed spec fn view(&self) -> PoolState {
        PoolState { channel: self.channel@, threads: self.threads as nat }
    }
}

impl ThreadPool {
    /// Creates a pool for `threads` workers. A pool without workers would
    /// never run anything, so there has to be at least one.
    pub fn new(threads: u32) -> (pool: Self)
        requires
            threads > 0,
        ensures
            pool@ == PoolState::fresh(threads as nat),
    {
        ThreadPool { channel: JobChannel::new(), threads }
    }

    /// Submits `job`: it joins the channel behind the jobs that wait there.
    /// A pool that has been shut down refuses it.
    pub fn spawn(&mut self, job: JobId) -> (r: Result<(), SpawnError>)
        ensures
            old(self)@.channel.closed ==> r == Err::<(), SpawnError>(SpawnError::Closed)
                && final(self)@ == old(self)@,
            !old(self)@.channel.closed ==> r == Ok::<(), SpawnError>(()) && final(self)@
                == old(self)@.spawn(job),
    {
        match self.channel.send(job) {
            Ok(()) => Ok(()),
            Err(_) => Err(SpawnError::Closed),
        }
    }

    /// One turn of a worker's loop: the worker runs the oldest job, or
    /// waits for one, or leaves because the pool is shut down and drained.
    pub fn worker_step(&mut self) -> (action: WorkerAction)
        ensures
            action == old(self)@.channel.action(),
            final(self)@ == old(self)@.step(),
    {
        match self.channel.try_recv() {
            Ok(job) => WorkerAction::Run(job),
            Err(TryRecvError::Empty) => WorkerAction::Wait,
            Err(TryRecvError::Disconnected) => WorkerAction::Exit,
        }
    }

    /// Shuts the pool down: nothing more is accepted, the workers run what
    /// is queued and then leave.
    pub fn shutdown(&mut self)
        ensures
            final(self)@ == old(self)@.close(),
    {
        self.channel.close();
    }

    /// The number of workers.
    pub fn threads(&self) -> (n: u32)
        ensures
            n == self@.threads,
    {
        self.threads
    }

    /// The number of jobs waiting for a worker.
    pub fn queued(&self) -> (n: usize)
        ensures
            n == self@.channel.queue.len(),
    {
        self.channel.len()
    }
}

/// Completion: whatever the number of workers, the jobs submitted to a new
/// pool are handed out in as many worker steps as there are jobs, each job
/// once and in the order of submission; after that the queue is empty and a
/// worker that asks again is told to wait.
pub proof fn lemma_completion_count(threads: nat, jobs: Seq<JobId>)
    requires
        threads >= 1,
    ensures
        ({
            let pool = PoolState::fresh(threads).spawn_all(jobs);
            &&& pool.channel.handed_out(jobs.len()) == jobs
            &&& pool.channel.after(jobs.len()).queue.len() == 0
            &&& pool.channel.after(jobs.len()).action() == WorkerAction::Wait
        }),
{
    let pool = PoolState::fresh(threads).spawn_all(jobs);
    ChannelState::fresh().lemma_send_all(jobs);
    assert(ChannelState::fresh().queue + jobs =~= jobs);
    pool.channel.lemma_steps_drain(jobs.len());
}

/// Shutdown drains: the jobs queued when a pool is shut down are still
/// handed out, each once and in order, and the step after the last of them
/// sends the worker home.
pub proof fn lemma_shutdown_drains(pool: PoolState)
    ensures
        ({
            let closed = pool.close();
            let n = pool.channel.queue.len();
            &&& closed.channel.handed_out(n) == pool.channel.queue
            &&& closed.channel.after(n).action() == WorkerAction::Exit
        }),
{
    pool.close().channel.lemma_steps_drain(pool.channel.queue.len());
}

} // verus!
