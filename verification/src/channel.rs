//! The run queue: an unbounded channel of `crossbeam` that carries tickets,
//! both ends in one hand.
//!
//! The pool that owns a run queue reaches it through exclusive borrows only,
//! and the two ends never part. What is stated here is what the channel does
//! in that setting: it is a linked list that is written at its tail and
//! read from its head, so messages leave in the order in which they came,
//! and with both ends alive it is never disconnected.

use vstd::prelude::*;
use crossbeam::channel::{unbounded, Receiver, Sender};

verus! {

/// `crossbeam::channel::Sender`, taken as opaque.
#[verifier::external_type_specification]
#[verifier::external_body]
#[verifier::reject_recursive_types(T)]
pub struct ExSender<T>(crossbeam::channel::Sender<T>);

/// `crossbeam::channel::Receiver`, taken as opaque.
#[verifier::external_type_specification]
#[verifier::external_body]
#[verifier::reject_recursive_types(T)]
pub struct ExReceiver<T>(crossbeam::channel::Receiver<T>);

/// The sending and the receiving end of one channel. The two are made
/// together by [`RunQueue::new`] and there is no other way to make a run
/// queue, so what goes in at one end comes out at the other.
pub struct RunQueue {
    sender: Sender<u64>,
    receiver: Receiver<u64>,
}

/// The messages that wait in the channel, oldest first.
pub uninterp spec fn queued(q: RunQueue) -> Seq<u64>;

impl RunQueue {
    /// `crossbeam::channel::unbounded`: a channel with nothing in it.
    #[verifier::external_body]
    pub(crate) fn new() -> (q: RunQueue)
        ensures
            queued(q) == Seq::<u64>::empty(),
    {
        let (sender, receiver) = unbounded();
        RunQueue { sender, receiver }
    }

    /// `Sender::send`: the message joins the channel behind all that wait
    /// there. An unbounded channel never makes the sender wait, and it
    /// refuses a message only once its receivers are gone, which a run
    /// queue's never are.
    #[verifier::external_body]
    pub(crate) fn send(&mut self, message: u64)
        ensures
            queued(*final(self)) == queued(*old(self)).push(message),
    {
        let _ = self.sender.send(message);
    }

    /// `Receiver::try_recv`: the oldest message leaves the channel, or the
    /// channel is empty and stays so.
    #[verifier::external_body]
    pub(crate) fn try_recv(&mut self) -> (r: Option<u64>)
        ensures
            match r {
                Some(message) => queued(*old(self)).len() > 0 && message == queued(*old(self))[0]
                    && queued(*final(self)) == queued(*old(self)).drop_first(),
                None => queued(*old(self)).len() == 0 && queued(*final(self)) == queued(
                    *old(self),
                ),
            },
    {
        self.receiver.try_recv().ok()
    }
}

} // verus!
