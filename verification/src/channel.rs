//! Unbounded queues between cooperating tasks.
//!
//! The endpoints are those of `async_channel`. What a queue holds at a given
//! moment depends on the other tasks that share it, so nothing in this module
//! speaks of a queue's contents: a send reports whether the message was taken,
//! a receive hands out a message or nothing.

use vstd::prelude::*;

verus! {

/// The sending endpoint of a queue, `async_channel::Sender`. Opaque.
#[verifier::external_type_specification]
#[verifier::external_body]
#[verifier::reject_recursive_types(T)]
pub struct ExSender<T>(async_channel::Sender<T>);

/// The receiving endpoint of a queue, `async_channel::Receiver`. Opaque.
#[verifier::external_type_specification]
#[verifier::external_body]
#[verifier::reject_recursive_types(T)]
pub struct ExReceiver<T>(async_channel::Receiver<T>);

/// `async_channel::unbounded`: a new queue without a capacity limit, as its
/// two endpoints. Nothing is claimed of them.
pub assume_specification<T>[ async_channel::unbounded::<T> ]() -> (endpoints: (
    async_channel::Sender<T>,
    async_channel::Receiver<T>,
));

/// `Clone` of `async_channel::Sender`: one more sending endpoint of the same
/// queue. A sending endpoint holds its queue and nothing else, and the clone
/// holds the same queue, so as a value the clone is the endpoint it was made
/// from.
pub assume_specification<T>[ <async_channel::Sender<T> as Clone>::clone ](
    sender: &async_channel::Sender<T>,
) -> (other: async_channel::Sender<T>)
    ensures
        other == *sender,
;

/// `Clone` of `async_channel::Receiver`: one more receiving endpoint of the
/// same queue. Besides its queue a receiving endpoint holds what it listens
/// with, which the clone does not take over, so nothing is claimed of the
/// clone as a value.
pub assume_specification<T>[ <async_channel::Receiver<T> as Clone>::clone ](
    receiver: &async_channel::Receiver<T>,
) -> (other: async_channel::Receiver<T>);

/// `async_channel::Sender::try_send`: offers `message` to the queue without
/// waiting. The result is `true` when the queue took it, `false` when the
/// queue is closed (or full, which an unbounded queue never is); which of the
/// two happens depends on the queue, so nothing is claimed of the result.
#[verifier::external_body]
pub(crate) fn offer<T>(sender: &async_channel::Sender<T>, message: T) -> (taken: bool) {
    sender.try_send(message).is_ok()
}

/// `async_channel::Receiver::try_recv`: takes the message at the head of the
/// queue without waiting. The result is `None` when the queue is empty or
/// closed; which message comes, if any, depends on the queue, so nothing is
/// claimed of the result.
#[verifier::external_body]
pub(crate) fn poll<T>(receiver: &async_channel::Receiver<T>) -> (message: Option<T>) {
    receiver.try_recv().ok()
}

} // verus!
