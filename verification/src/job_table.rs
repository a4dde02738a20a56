//! The job table: where submitted jobs rest until a worker takes them.
//!
//! A pool moves tickets; the table holds what the tickets stand for. A job
//! is put into the table once and taken out at most once, so no job is run
//! twice, whatever the pool does with its ticket.

use vstd::prelude::*;
use crate::JobId;

verus! {

/// A table of jobs of type `J`, each under a ticket of its own.
pub struct JobTable<J> {
    slots: Vec<Option<J>>,
    free: Vec<usize>,
}

impl<J> View for JobTable<J> {
    type V = Map<JobId, J>;

    closed spec fn view(&self) -> Map<JobId, J> {
        Map::new(
            |ticket: JobId| ticket < self.slots@.len() && self.slots@[ticket as int] is Some,
            |ticket: JobId| self.slots@[ticket as int]->Some_0,
        )
    }
}

impl<J> JobTable<J> {
    /// Creates a table without jobs.
    pub fn new() -> (table: Self)
        ensures
            table@ == Map::<JobId, J>::empty(),
    {
        let table = JobTable { slots: Vec::new(), free: Vec::new() };
        assert(table@ =~= Map::<JobId, J>::empty());
        table
    }

    /// Puts `job` into the table and returns the ticket under which it
    /// rests there: one that no job in the table has.
    pub fn insert(&mut self, job: J) -> (ticket: JobId)
        ensures
            !old(self)@.contains_key(ticket),
            final(self)@ == old(self)@.insert(ticket, job),
    {
        if let Some(index) = self.free.pop() {
            if index < self.slots.len() && self.slots[index].is_none() {
                self.slots.set(index, Some(job));
                assert(self@ =~= old(self)@.insert(index as JobId, job));
                return index as u64;
            }
        }
        let index = self.slots.len();
        self.slots.push(Some(job));
        assert(self@ =~= old(self)@.insert(index as JobId, job));
        index as u64
    }

    /// Takes the job of `ticket` out of the table. A ticket without a job,
    /// be it unknown or used before, yields nothing.
    pub fn take(&mut self, ticket: JobId) -> (job: Option<J>)
        ensures
            job == (if old(self)@.contains_key(ticket) {
                Some(old(self)@[ticket])
            } else {
                None::<J>
            }),
            final(self)@ == old(self)@.remove(ticket),
    {
        if ticket >= self.slots.len() as u64 {
            assert(self@ =~= old(self)@.remove(ticket));
            return None;
        }
        let index = ticket as usize;
        let mut job: Option<J> = None;
        core::mem::swap(&mut self.slots[index], &mut job);
        if job.is_some() {
            self.free.push(index);
        }
        assert(self@ =~= old(self)@.remove(ticket));
        job
    }

    /// Whether a job rests under `ticket`.
    pub fn contains(&self, ticket: JobId) -> (b: bool)
        ensures
            b == self@.contains_key(ticket),
    {
        ticket < self.slots.len() as u64 && self.slots[ticket as usize].is_some()
    }
}

/// At most once: a ticket that has been used yields nothing when it is used
/// again, and taking a job leaves every other job where it is.
pub proof fn lemma_taken_once<J>(table: Map<JobId, J>, ticket: JobId, other: JobId)
    requires
        other != ticket,
    ensures
        !table.remove(ticket).contains_key(ticket),
        table.remove(ticket).contains_key(other) == table.contains_key(other),
        table.contains_key(other) ==> table.remove(ticket)[other] == table[other],
{
}

} // verus!
