//! The elastic pool: every submission starts a worker, and a worker that has
//! been idle for longer than the pool allows goes away.

use vstd::prelude::*;
use std::time::Duration;
use crate::{JobId, SpawnError, WorkerAction};
use crate::job_channel::JobChannel;

verus! {

/// The length of a duration in nanoseconds.
pub uninterp spec fn duration_nanos(d: Duration) -> nat;

/// `Duration::as_nanos`: the whole duration, in nanoseconds.
#[verifier::external_body]
fn as_nanos(d: &Duration) -> (n: u128)
    ensures
        n == duration_nanos(*d),
{
    d.as_nanos()
}

/// How long a worker waits on the channel before it looks at its idle
/// clock, in milliseconds.
pub const POLL_INTERVAL_MILLIS: u64 = 10;

/// What an elastic pool holds, as mathematics.
pub struct ElasticState {
    /// The jobs waiting for a worker, oldest first.
    pub queue: Seq<JobId>,
    /// Whether the pool has been shut down.
    pub closed: bool,
    /// The number of workers that have been started and have not left.
    pub active_threads: nat,
    /// The idle time after which a worker leaves, in nanoseconds.
    pub max_idle_nanos: nat,
}

/// A worker's idle time after it has waited `waited` more nanoseconds on top
/// of `idle`. The clock stops at its largest value.
pub open spec fn idle_after(idle: nat, waited: nat) -> nat {
    if idle + waited > u128::MAX {
        u128::MAX as nat
    } else {
        idle + waited
    }
}

impl ElasticState {
    /// A pool without workers or jobs, whose workers may idle for
    /// `max_idle_nanos`.
    pub open spec fn fresh(max_idle_nanos: nat) -> ElasticState {
        ElasticState { queue: Seq::empty(), closed: false, active_threads: 0, max_idle_nanos }
    }

    /// The pool after `job` has been submitted: the job is queued and one
    /// more worker is counted.
    pub open spec fn spawn(self, job: JobId) -> ElasticState {
        ElasticState {
            queue: self.queue.push(job),
            active_threads: self.active_threads + 1,
            ..self
        }
    }

    /// The pool after `jobs` have been submitted, one after another.
    pub open spec fn spawn_all(self, jobs: Seq<JobId>) -> ElasticState
        decreases jobs.len(),
    {
        if jobs.len() == 0 {
            self
        } else {
            self.spawn_all(jobs.drop_last()).spawn(jobs.last())
        }
    }

    /// The pool after it has been shut down.
    pub open spec fn close(self) -> ElasticState {
        ElasticState { closed: true, ..self }
    }

    /// Whether a worker that finds the queue empty after `idle` nanoseconds
    /// without work has to leave.
    pub open spec fn expired(self, idle: nat) -> bool {
        self.closed || idle > self.max_idle_nanos
    }

    /// What a worker does when it comes back from waiting `waited`
    /// nanoseconds, with `idle` nanoseconds on its clock from before.
    pub open spec fn action(self, idle: nat, waited: nat) -> WorkerAction {
        if self.queue.len() > 0 {
            WorkerAction::Run(self.queue[0])
        } else if self.expired(idle_after(idle, waited)) {
            WorkerAction::Exit
        } else {
            WorkerAction::Wait
        }
    }

    /// The pool after that step: a job that is run leaves the queue, and a
    /// worker that leaves is no longer counted.
    pub open spec fn step(self, idle: nat, waited: nat) -> ElasticState {
        match self.action(idle, waited) {
            WorkerAction::Run(_) => ElasticState { queue: self.queue.drop_first(), ..self },
            WorkerAction::Wait => self,
            WorkerAction::Exit => ElasticState {
                active_threads: if self.active_threads > 0 {
                    (self.active_threads - 1) as nat
                } else {
                    0
                },
                ..self
            },
        }
    }

    /// The jobs that `n` worker steps hand out to be run, in the order of
    /// the steps, when no worker has waited before its step.
    pub open spec fn handed_out(self, n: nat) -> Seq<JobId>
        decreases n,
    {
        if n == 0 {
            Seq::empty()
        } else {
            match self.action(0, 0) {
                WorkerAction::Run(job) => seq![job] + self.step(0, 0).handed_out((n - 1) as nat),
                _ => self.step(0, 0).handed_out((n - 1) as nat),
            }
        }
    }

    /// The worker's idle clock after that step: back to zero when a job is
    /// run, advanced by the wait otherwise.
    pub open spec fn clock(self, idle: nat, waited: nat) -> nat {
        if self.queue.len() > 0 {
            0
        } else {
            idle_after(idle, waited)
        }
    }
}

/// A thread pool that starts a worker for every submission and lets workers
/// go after an idle time.
pub struct ElasticThreadPool {
    channel: JobChannel,
    active_threads: usize,
    max_idle_nanos: u128,
}

impl View for ElasticThreadPool {
    type V = ElasticState;

    closed spec fn view(&self) -> ElasticState {
        ElasticState {
            queue: self.channel@.queue,
            closed: self.channel@.closed,
            active_threads: self.active_threads as nat,
            max_idle_nanos: self.max_idle_nanos as nat,
        }
    }
}

/// The idle clock of one worker: the time it has spent waiting since it last
/// had a job, in nanoseconds.
pub struct IdleClock {
    idle_nanos: u128,
}

impl View for IdleClock {
    type V = nat;

    closed spec fn view(&self) -> nat {
        self.idle_nanos as nat
    }
}

impl IdleClock {
    /// The clock of a worker that has just started.
    pub fn new() -> (clock: Self)
        ensures
            clock@ == 0,
    {
        IdleClock { idle_nanos: 0 }
    }

    /// The idle time on the clock, in nanoseconds.
    pub fn idle_nanos(&self) -> (n: u128)
        ensures
            n == self@,
    {
        self.idle_nanos
    }
}

impl ElasticThreadPool {
    /// Creates a pool whose workers leave after `max_idle_time` without
    /// work. It starts without workers.
    pub fn new(max_idle_time: Duration) -> (pool: Self)
        ensures
            pool@ == ElasticState::fresh(duration_nanos(max_idle_time)),
    {
        Self::with_max_idle_nanos(as_nanos(&max_idle_time))
    }

    /// Creates a pool whose workers leave after more than `max_idle_nanos`
    /// nanoseconds without work. It starts without workers.
    pub fn with_max_idle_nanos(max_idle_nanos: u128) -> (pool: Self)
        ensures
            pool@ == ElasticState::fresh(max_idle_nanos as nat),
    {
        ElasticThreadPool { channel: JobChannel::new(), active_threads: 0, max_idle_nanos }
    }

    /// Submits `job` and counts the worker that the caller starts for it. A
    /// worker is started for every accepted job, whether or not another one
    /// is idle. A pool that has been shut down refuses the job and counts
    /// nothing.
    pub fn spawn(&mut self, job: JobId) -> (r: Result<(), SpawnError>)
        requires
            old(self)@.active_threads < usize::MAX,
        ensures
            old(self)@.closed ==> r == Err::<(), SpawnError>(SpawnError::Closed) && final(self)@
                == old(self)@,
            !old(self)@.closed ==> r == Ok::<(), SpawnError>(()) && final(self)@
                == old(self)@.spawn(job),
    {
        match self.channel.send(job) {
            Ok(()) => {
                self.active_threads = self.active_threads + 1;
                Ok(())
            },
            Err(_) => Err(SpawnError::Closed),
        }
    }

    /// The number of workers that have been started and have not left.
    pub fn active_threads(&self) -> (n: usize)
        ensures
            n == self@.active_threads,
    {
        self.active_threads
    }

    /// The idle time after which a worker leaves, in nanoseconds.
    pub fn max_idle_nanos(&self) -> (n: u128)
        ensures
            n == self@.max_idle_nanos,
    {
        self.max_idle_nanos
    }

    /// The number of jobs waiting for a worker.
    pub fn queued(&self) -> (n: usize)
        ensures
            n == self@.queue.len(),
    {
        self.channel.len()
    }

    /// Shuts the pool down: nothing more is accepted, workers finish what is
    /// queued and leave when they next find the queue empty.
    pub fn shutdown(&mut self)
        ensures
            final(self)@ == old(self)@.close(),
    {
        self.channel.close();
    }
}

/// One turn of a worker's loop, taken when the worker comes back from
/// waiting `waited` on the channel. It is [`worker_turn`] with the wait
/// counted in nanoseconds.
pub fn worker_thread(
    pool: &mut ElasticThreadPool,
    clock: &mut IdleClock,
    waited: Duration,
) -> (action: WorkerAction)
    ensures
        action == old(pool)@.action(old(clock)@, duration_nanos(waited)),
        final(pool)@ == old(pool)@.step(old(clock)@, duration_nanos(waited)),
        final(clock)@ == old(pool)@.clock(old(clock)@, duration_nanos(waited)),
{
    worker_turn(pool, clock, as_nanos(&waited))
}

/// One turn of a worker's loop, taken when the worker comes back from
/// waiting `waited_nanos` nanoseconds on the channel.
///
/// If a job is queued the worker runs it and its idle clock starts again
/// from zero. Otherwise the wait is added to the clock, and the worker
/// leaves when the pool is shut down or the clock has passed the pool's
/// idle limit; a worker that leaves is taken off the count. In every other
/// case it waits again.
pub fn worker_turn(
    pool: &mut ElasticThreadPool,
    clock: &mut IdleClock,
    waited_nanos: u128,
) -> (action: WorkerAction)
    ensures
        action == old(pool)@.action(old(clock)@, waited_nanos as nat),
        final(pool)@ == old(pool)@.step(old(clock)@, waited_nanos as nat),
        final(clock)@ == old(pool)@.clock(old(clock)@, waited_nanos as nat),
{
    match pool.channel.try_recv() {
        Ok(job) => {
            clock.idle_nanos = 0;
            WorkerAction::Run(job)
        },
        Err(_) => {
            let idle: u128 = if waited_nanos > u128::MAX - clock.idle_nanos {
                u128::MAX
            } else {
                clock.idle_nanos + waited_nanos
            };
            clock.idle_nanos = idle;
            if pool.channel.is_closed() || idle > pool.max_idle_nanos {
                if pool.active_threads > 0 {
                    pool.active_threads = pool.active_threads - 1;
                }
                WorkerAction::Exit
            } else {
                WorkerAction::Wait
            }
        },
    }
}

/// Teardown: a worker of an open pool that finds nothing queued leaves
/// exactly when its idle time has passed the pool's limit, and not before;
/// the count of active workers goes down by one when it leaves and stays as
/// it is otherwise.
pub proof fn lemma_worker_leaves_after_idle_limit(s: ElasticState, idle: nat, waited: nat)
    requires
        s.queue.len() == 0,
        !s.closed,
    ensures
        s.action(idle, waited) == WorkerAction::Exit <==> idle_after(idle, waited)
            > s.max_idle_nanos,
        s.action(idle, waited) != WorkerAction::Exit ==> s.action(idle, waited)
            == WorkerAction::Wait && s.step(idle, waited) == s,
        s.action(idle, waited) == WorkerAction::Exit && s.active_threads > 0 ==> s.step(
            idle,
            waited,
        ).active_threads == s.active_threads - 1,
{
}

/// A worker that is handed a job does not leave, however long it has been
/// idle, and starts its idle time anew.
pub proof fn lemma_work_resets_idle_clock(s: ElasticState, idle: nat, waited: nat)
    requires
        s.queue.len() > 0,
    ensures
        s.action(idle, waited) == WorkerAction::Run(s.queue[0]),
        s.clock(idle, waited) == 0,
        s.step(idle, waited).active_threads == s.active_threads,
        s.step(idle, waited).queue == s.queue.drop_first(),
{
}

/// One submission and the departure of its worker leave the count of active
/// workers where it was: after every worker that was started has left, the
/// count is back at what it was before the submissions.
pub proof fn lemma_spawn_then_exit_restores_count(s: ElasticState, job: JobId, idle: nat, waited: nat)
    requires
        s.queue.len() == 0,
        idle_after(idle, waited) > s.max_idle_nanos,
    ensures
        ({
            let started = s.spawn(job);
            let ran = started.step(0, 0);
            let left = ran.step(idle, waited);
            &&& started.action(0, 0) == WorkerAction::Run(job)
            &&& ran.active_threads == s.active_threads + 1
            &&& ran.action(idle, waited) == WorkerAction::Exit
            &&& left.active_threads == s.active_threads
            &&& left.queue.len() == 0
        }),
{
    let started = s.spawn(job);
    assert(started.queue.drop_first() =~= Seq::<JobId>::empty());
}

impl ElasticState {
    /// Jobs submitted to a pool queue up behind those that wait there, and
    /// a worker is counted for each.
    pub proof fn lemma_spawn_all(self, jobs: Seq<JobId>)
        ensures
            self.spawn_all(jobs).queue == self.queue + jobs,
            self.spawn_all(jobs).active_threads == self.active_threads + jobs.len(),
            self.spawn_all(jobs).closed == self.closed,
            self.spawn_all(jobs).max_idle_nanos == self.max_idle_nanos,
        decreases jobs.len(),
    {
        if jobs.len() > 0 {
            self.lemma_spawn_all(jobs.drop_last());
            assert(jobs.drop_last().push(jobs.last()) =~= jobs);
        }
        assert(self.spawn_all(jobs).queue =~= self.queue + jobs);
    }

    /// As many worker steps as jobs are queued hand out exactly those jobs,
    /// each once and oldest first, and no worker leaves before the queue is
    /// empty.
    pub proof fn lemma_steps_drain(self, n: nat)
        requires
            n == self.queue.len(),
        ensures
            self.handed_out(n) == self.queue,
        decreases n,
    {
        if n > 0 {
            self.step(0, 0).lemma_steps_drain((n - 1) as nat);
            assert(seq![self.queue[0]] + self.queue.drop_first() =~= self.queue);
        }
        assert(self.handed_out(n) =~= self.queue);
    }
}

/// Completion: the jobs submitted to a new pool are handed out in as many
/// worker steps as there are jobs, each job once and in the order of
/// submission, by the workers that were started for them.
pub proof fn lemma_completion_count(max_idle_nanos: nat, jobs: Seq<JobId>)
    ensures
        ({
            let pool = ElasticState::fresh(max_idle_nanos).spawn_all(jobs);
            &&& pool.active_threads == jobs.len()
            &&& pool.handed_out(jobs.len()) == jobs
        }),
{
    let fresh = ElasticState::fresh(max_idle_nanos);
    fresh.lemma_spawn_all(jobs);
    assert(fresh.queue + jobs =~= jobs);
    fresh.spawn_all(jobs).lemma_steps_drain(jobs.len());
}

} // verus!
