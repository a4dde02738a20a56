//! Scheduling cores for thread pools.
//!
//! Every pool in this crate is the sequential heart of a scheduler: the
//! queues, the counters and the decision a worker takes each time it comes
//! back for work. A pool never runs a job and never blocks. It is driven by
//! its owner, who holds it behind a lock, performs the [`WorkerAction`] that
//! a step returns and calls again. Jobs are named by tickets ([`JobId`]); what
//! a ticket stands for rests in a [`job_table::JobTable`] until a worker
//! takes it.

use vstd::prelude::*;

pub mod channel;
pub mod deque;
pub mod elastic;
pub mod executor;
pub mod fixed;
pub mod grep;
pub mod hybrid;
pub mod job_channel;
pub mod job_table;
pub mod priority;
pub mod server;
pub mod work_stealing;

verus! {

/// The ticket that names a submitted job.
pub type JobId = u64;

/// What a worker does after one step of its loop.
#[derive(Clone, Copy, Debug, PartialEq, Eq, Structural)]
pub enum WorkerAction {
    /// Run this job to completion, then step again.
    Run(JobId),
    /// Nothing to do for now: wait for a signal (or yield), then step again.
    Wait,
    /// Leave the loop: the worker is done.
    Exit,
}

/// Why a submission was refused.
#[derive(Clone, Copy, Debug, PartialEq, Eq, Structural)]
pub enum SpawnError {
    /// The pool has been shut down and accepts no more work.
    Closed,
    /// The pool has no worker of that index.
    NoSuchWorker,
}

} // verus!
