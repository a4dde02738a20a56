//! The job channel: the queue that carries jobs from the threads that
//! submit them to the workers that run them, first in, first out.

use vstd::prelude::*;
use std::collections::VecDeque;
use crate::{JobId, WorkerAction};

verus! {

/// What a job channel holds, as mathematics.
pub struct ChannelState {
    /// The jobs on their way, oldest first.
    pub queue: Seq<JobId>,
    /// Whether the sending side has been closed.
    pub closed: bool,
}

impl ChannelState {
    /// An open channel with nothing in it.
    pub open spec fn fresh() -> ChannelState {
        ChannelState { queue: Seq::empty(), closed: false }
    }

    /// The channel after `job` has been sent into it.
    pub open spec fn send(self, job: JobId) -> ChannelState {
        ChannelState { queue: self.queue.push(job), ..self }
    }

    /// The channel after its oldest job has been received.
    pub open spec fn receive(self) -> ChannelState {
        ChannelState { queue: self.queue.drop_first(), ..self }
    }

    /// The channel after its sending side has been closed. What was sent
    /// before can still be received.
    pub open spec fn close(self) -> ChannelState {
        ChannelState { closed: true, ..self }
    }

    /// The channel after `jobs` have been sent into it, one after another.
    pub open spec fn send_all(self, jobs: Seq<JobId>) -> ChannelState
        decreases jobs.len(),
    {
        if jobs.len() == 0 {
            self
        } else {
            self.send_all(jobs.drop_last()).send(jobs.last())
        }
    }

    /// What a worker that blocks on the channel does next: it runs the
    /// oldest job, or waits for one, or leaves because none will come.
    pub open spec fn action(self) -> WorkerAction {
        if self.queue.len() > 0 {
            WorkerAction::Run(self.queue[0])
        } else if self.closed {
            WorkerAction::Exit
        } else {
            WorkerAction::Wait
        }
    }

    /// The channel after that step: the job that is run has left it.
    pub open spec fn step(self) -> ChannelState {
        if self.queue.len() > 0 {
            self.receive()
        } else {
            self
        }
    }

    /// The channel after `n` worker steps.
    pub open spec fn after(self, n: nat) -> ChannelState
        decreases n,
    {
        if n == 0 {
            self
        } else {
            self.step().after((n - 1) as nat)
        }
    }

    /// The jobs that `n` worker steps hand out to be run, in the order of
    /// the steps.
    pub open spec fn handed_out(self, n: nat) -> Seq<JobId>
        decreases n,
    {
        if n == 0 {
            Seq::empty()
        } else {
            match self.action() {
                WorkerAction::Run(job) => seq![job] + self.step().handed_out((n - 1) as nat),
                _ => self.step().handed_out((n - 1) as nat),
            }
        }
    }

    /// Jobs sent into an open channel queue up behind those that wait
    /// there, in the order in which they were sent.
    pub proof fn lemma_send_all(self, jobs: Seq<JobId>)
        ensures
            self.send_all(jobs).queue == self.queue + jobs,
            self.send_all(jobs).closed == self.closed,
        decreases jobs.len(),
    {
        if jobs.len() > 0 {
            self.lemma_send_all(jobs.drop_last());
            assert(jobs.drop_last().push(jobs.last()) =~= jobs);
        }
        assert(self.send_all(jobs).queue =~= self.queue + jobs);
    }

    /// Workers drain the channel in order: as many steps as jobs are queued
    /// hand out exactly those jobs, each once, oldest first, and leave the
    /// queue empty. Steps taken after that hand out nothing.
    pub proof fn lemma_steps_drain(self, n: nat)
        requires
            n >= self.queue.len(),
        ensures
            self.handed_out(n) == self.queue,
            self.after(n).queue.len() == 0,
            self.after(n).closed == self.closed,
        decreases n,
    {
        if n > 0 {
            self.step().lemma_steps_drain((n - 1) as nat);
            if self.queue.len() > 0 {
                assert(seq![self.queue[0]] + self.queue.drop_first() =~= self.queue);
            }
        }
        assert(self.handed_out(n) =~= self.queue);
    }
}

/// A job that could not be sent, because the channel was closed.
#[derive(Clone, Copy, Debug, PartialEq, Eq, Structural)]
pub struct SendError(pub JobId);

/// Why no job was received.
#[derive(Clone, Copy, Debug, PartialEq, Eq, Structural)]
pub enum TryRecvError {
    /// Nothing is queued, but the channel is open: a job may still come.
    Empty,
    /// Nothing is queued and the channel is closed: no job will ever come.
    Disconnected,
}

/// A first-in first-out channel of jobs.
pub struct JobChannel {
    queue: VecDeque<JobId>,
    closed: bool,
}

impl View for JobChannel {
    type V = ChannelState;

    closed spec fn view(&self) -> ChannelState {
        ChannelState { queue: self.queue@, closed: self.closed }
    }
}

impl JobChannel {
    /// Creates an open channel with nothing in it.
    pub fn new() -> (channel: Self)
        ensures
            channel@ == ChannelState::fresh(),
    {
        JobChannel { queue: VecDeque::new(), closed: false }
    }

    /// Sends `job`. A closed channel hands it back.
    pub fn send(&mut self, job: JobId) -> (r: Result<(), SendError>)
        ensures
            old(self)@.closed ==> r == Err::<(), SendError>(SendError(job)) && final(self)@ == old(self)@,
            !old(self)@.closed ==> r == Ok::<(), SendError>(()) && final(self)@ == old(self)@.send(
                job,
            ),
    {
        if self.closed {
            return Err(SendError(job));
        }
        self.queue.push_back(job);
        Ok(())
    }

    /// Receives the oldest job, if there is one. Otherwise says whether one
    /// may still come.
    pub fn try_recv(&mut self) -> (r: Result<JobId, TryRecvError>)
        ensures
            old(self)@.queue.len() > 0 ==> r == Ok::<JobId, TryRecvError>(old(self)@.queue[0])
                && final(self)@ == old(self)@.receive(),
            old(self)@.queue.len() == 0 ==> final(self)@ == old(self)@ && r == Err::<
                JobId,
                TryRecvError,
            >(
                if old(self)@.closed {
                    TryRecvError::Disconnected
                } else {
                    TryRecvError::Empty
                },
            ),
    {
        match self.queue.pop_front() {
            Some(job) => {
                assert(self.queue@ =~= old(self).queue@.drop_first());
                Ok(job)
            },
            None => {
                if self.closed {
                    Err(TryRecvError::Disconnected)
                } else {
                    Err(TryRecvError::Empty)
                }
            },
        }
    }

    /// Closes the sending side. Jobs already sent stay receivable.
    pub fn close(&mut self)
        ensures
            final(self)@ == old(self)@.close(),
    {
        self.closed = true;
    }

    /// Whether the sending side has been closed.
    pub fn is_closed(&self) -> (b: bool)
        ensures
            b == self@.closed,
    {
        self.closed
    }

    /// The number of jobs on their way.
    pub fn len(&self) -> (n: usize)
        ensures
            n == self@.queue.len(),
    {
        self.queue.len()
    }
}

} // verus!
