//! The hybrid pool: a fixed pool for jobs that keep a processor busy and an
//! executor for futures that mostly wait, side by side. Each has its own
//! queue and its own workers, so that neither holds up the other.

use vstd::prelude::*;
use crate::{JobId, SpawnError, WorkerAction};
use crate::channel::{queued, RunQueue};
use crate::executor::{ExecutorState, IoThreadPool, Polled, TaskAction, TaskId};
use crate::fixed::PoolState;
use crate::job_channel::ChannelState;

verus! {

/// A fixed pool for processor-bound jobs.
pub struct CpuThreadPool {
    run_queue: RunQueue,
    closed: bool,
    num_threads: usize,
}

impl View for CpuThreadPool {
    type V = PoolState;

    closed spec fn view(&self) -> PoolState {
        PoolState {
            channel: ChannelState { queue: queued(self.run_queue), closed: self.closed },
            threads: self.num_threads as nat,
        }
    }
}

impl CpuThreadPool {
    /// Creates a pool for `num_threads` workers. A pool without workers
    /// would never run anything, so there has to be at least one.
    pub fn new(num_threads: usize) -> (pool: Self)
        requires
            num_threads > 0,
        ensures
            pool@ == PoolState::fresh(num_threads as nat),
    {
        CpuThreadPool { run_queue: RunQueue::new(), closed: false, num_threads }
    }

    /// Submits `task`: it joins the queue behind the jobs that wait there.
    /// A pool that has been shut down refuses it.
    pub fn spawn(&mut self, task: JobId) -> (r: Result<(), SpawnError>)
        ensures
            old(self)@.channel.closed ==> r == Err::<(), SpawnError>(SpawnError::Closed)
                && final(self)@ == old(self)@,
            !old(self)@.channel.closed ==> r == Ok::<(), SpawnError>(()) && final(self)@
                == old(self)@.spawn(task),
    {
        if self.closed {
            return Err(SpawnError::Closed);
        }
        self.run_queue.send(task);
        Ok(())
    }

    /// One turn of a worker's loop: the worker runs the oldest job, or
    /// waits for one, or leaves because the pool is shut down and drained.
    pub fn worker_step(&mut self) -> (action: WorkerAction)
        ensures
            action == old(self)@.channel.action(),
            final(self)@ == old(self)@.step(),
    {
        match self.run_queue.try_recv() {
            Some(job) => WorkerAction::Run(job),
            None => {
                if self.closed {
                    WorkerAction::Exit
                } else {
                    WorkerAction::Wait
                }
            },
        }
    }

    /// Shuts the pool down: nothing more is accepted, the workers run what
    /// is queued and then leave.
    pub fn shutdown(&mut self)
        ensures
            final(self)@ == old(self)@.close(),
    {
        self.closed = true;
    }

    /// The number of workers.
    pub fn threads(&self) -> (n: usize)
        ensures
            n == self@.threads,
    {
        self.num_threads
    }
}

/// What a hybrid pool holds, as mathematics: its two halves.
pub struct HybridState<F> {
    /// The pool for processor-bound jobs.
    pub cpu: PoolState,
    /// The executor for futures.
    pub io: ExecutorState<F>,
}

impl<F> HybridState<F> {
    /// A hybrid pool without jobs or tasks.
    pub open spec fn fresh(cpu_threads: nat, io_threads: nat) -> Self {
        HybridState { cpu: PoolState::fresh(cpu_threads), io: ExecutorState::fresh(io_threads) }
    }

    /// The pool after a processor-bound job has been submitted.
    pub open spec fn spawn_cpu(self, task: JobId) -> Self {
        HybridState { cpu: self.cpu.spawn(task), ..self }
    }

    /// The pool after a future has been submitted.
    pub open spec fn spawn_io(self, future: F) -> Self {
        HybridState { io: self.io.spawn(future), ..self }
    }

    /// The pool after one step of a worker of the processor-bound half.
    pub open spec fn cpu_step(self) -> Self {
        HybridState { cpu: self.cpu.step(), ..self }
    }

    /// The pool after one step of a worker of the executor.
    pub open spec fn io_step(self) -> Self {
        HybridState { io: self.io.step(), ..self }
    }

    /// The pool after both halves have been shut down.
    pub open spec fn close(self) -> Self {
        HybridState { cpu: self.cpu.close(), io: self.io.close() }
    }
}

/// A pool for processor-bound jobs and an executor for futures behind one
/// front.
pub struct HybridThreadPool<F> {
    cpu: CpuThreadPool,
    io: IoThreadPool<F>,
}

impl<F> View for HybridThreadPool<F> {
    type V = HybridState<F>;

    closed spec fn view(&self) -> HybridState<F> {
        HybridState { cpu: self.cpu@, io: self.io@ }
    }
}

impl<F> HybridThreadPool<F> {
    /// Creates a hybrid pool with `cpu_threads` workers for jobs and
    /// `io_threads` workers for futures.
    pub fn new(cpu_threads: usize, io_threads: usize) -> (pool: Self)
        requires
            cpu_threads > 0,
        ensures
            pool@ == HybridState::<F>::fresh(cpu_threads as nat, io_threads as nat),
    {
        HybridThreadPool { cpu: CpuThreadPool::new(cpu_threads), io: IoThreadPool::new(io_threads) }
    }

    /// Submits a processor-bound job. The executor is not touched.
    pub fn spawn_cpu(&mut self, task: JobId) -> (r: Result<(), SpawnError>)
        ensures
            old(self)@.cpu.channel.closed ==> r == Err::<(), SpawnError>(SpawnError::Closed)
                && final(self)@ == old(self)@,
            !old(self)@.cpu.channel.closed ==> r == Ok::<(), SpawnError>(()) && final(self)@
                == old(self)@.spawn_cpu(task),
    {
        self.cpu.spawn(task)
    }

    /// Submits a future. The pool for jobs is not touched.
    pub fn spawn_io(&mut self, future: F) -> (r: Result<TaskId, SpawnError>)
        ensures
            old(self)@.io.closed ==> r == Err::<TaskId, SpawnError>(SpawnError::Closed) && final(
                self)@ == old(self)@,
            !old(self)@.io.closed ==> r == Ok::<TaskId, SpawnError>(
                old(self)@.io.slots.len() as TaskId,
            ) && final(self)@ == old(self)@.spawn_io(future),
    {
        self.io.spawn(future)
    }

    /// One turn of the loop of a worker for jobs. The executor is not
    /// touched.
    pub fn cpu_step(&mut self) -> (action: WorkerAction)
        ensures
            action == old(self)@.cpu.channel.action(),
            final(self)@ == old(self)@.cpu_step(),
    {
        self.cpu.worker_step()
    }

    /// One turn of the loop of a worker for futures. The pool for jobs is
    /// not touched.
    pub fn io_step(&mut self) -> (action: TaskAction<F>)
        ensures
            action == old(self)@.io.action(),
            final(self)@ == old(self)@.io_step(),
    {
        self.io.worker_step()
    }

    /// Reports how the poll of `task` ended, as
    /// [`IoThreadPool::finish_poll`] does.
    pub fn finish_poll(&mut self, task: TaskId, outcome: Polled<F>)
        ensures
            final(self)@ == (HybridState {
                io: old(self)@.io.finish_poll(task, outcome),
                ..old(self)@
            }),
    {
        self.io.finish_poll(task, outcome)
    }

    /// Wakes `task`, as [`IoThreadPool::wake`] does.
    pub fn wake(&mut self, task: TaskId) -> (woken: bool)
        ensures
            woken == old(self)@.io.knows(task),
            final(self)@ == (HybridState { io: old(self)@.io.wake(task), ..old(self)@ }),
    {
        self.io.wake(task)
    }

    /// Shuts both halves down.
    pub fn shutdown(&mut self)
        ensures
            final(self)@ == old(self)@.close(),
    {
        self.cpu.shutdown();
        self.io.shutdown();
    }
}

/// Isolation: work for the processor-bound half does not hold up the
/// executor. However many jobs are submitted to the one and however many
/// of its workers are busy, the executor is as it would be without them,
/// and its workers are given the same thing to do.
pub proof fn lemma_cpu_work_does_not_delay_io<F>(pool: HybridState<F>, task: JobId)
    ensures
        pool.spawn_cpu(task).io == pool.io,
        pool.cpu_step().io == pool.io,
        pool.spawn_cpu(task).cpu_step().io.action() == pool.io.action(),
        pool.spawn_cpu(task).cpu_step().io_step().io == pool.io_step().io,
{
}

/// Isolation, the other way round: futures submitted to the executor and
/// the steps of its workers leave the pool for jobs as it is.
pub proof fn lemma_io_work_does_not_delay_cpu<F>(pool: HybridState<F>, future: F)
    ensures
        pool.spawn_io(future).cpu == pool.cpu,
        pool.io_step().cpu == pool.cpu,
        pool.spawn_io(future).io_step().cpu.channel.action() == pool.cpu.channel.action(),
{
}

/// Completion, for the processor-bound half: whatever the number of its
/// workers, the jobs submitted to a new hybrid pool are handed out in as
/// many steps of those workers as there are jobs, each job once and in the
/// order of submission, and the executor is still as new.
pub proof fn lemma_cpu_completion_count<F>(cpu_threads: nat, io_threads: nat, jobs: Seq<JobId>)
    requires
        cpu_threads >= 1,
    ensures
        ({
            let fresh = HybridState::<F>::fresh(cpu_threads, io_threads);
            let pool = HybridState { cpu: fresh.cpu.spawn_all(jobs), ..fresh };
            &&& pool.cpu.channel.handed_out(jobs.len()) == jobs
            &&& pool.cpu.channel.after(jobs.len()).queue.len() == 0
            &&& pool.io == ExecutorState::<F>::fresh(io_threads)
        }),
{
    crate::fixed::lemma_completion_count(cpu_threads, jobs);
}

/// Completion, for the executor: whatever the number of its workers, the
/// futures submitted to a new hybrid pool are polled in the order of
/// submission, and if each completes at its first poll all have completed
/// after one step each.
pub proof fn lemma_io_completion_count<F>(cpu_threads: nat, io_threads: nat, futures: Seq<F>)
    requires
        futures.len() <= u64::MAX,
    ensures
        ({
            let fresh = HybridState::<F>::fresh(cpu_threads, io_threads);
            let end = fresh.io.spawn_all(futures).run_ready(futures.len());
            &&& end.slots.len() == futures.len()
            &&& forall|task: int|
                0 <= task < futures.len() ==> (#[trigger] end.slots[task]) is Finished
            &&& end.run_queue.len() == 0
        }),
{
    ExecutorState::<F>::lemma_completion_count(io_threads, futures);
}

} // verus!
