//! The unbounded channels of `tokio` that carry events to the actor.
//!
//! What a channel holds changes under the hands of other threads, so nothing
//! is claimed of what a receive returns.

use tokio::sync::mpsc::{UnboundedReceiver, UnboundedSender};
use vstd::prelude::*;

verus! {

/// The sending half of `tokio::sync::mpsc::unbounded_channel`, carried
/// through as an opaque value.
#[verifier::external_type_specification]
#[verifier::external_body]
#[verifier::reject_recursive_types(T)]
pub struct ExUnboundedSender<T>(tokio::sync::mpsc::UnboundedSender<T>);

/// The receiving half of `tokio::sync::mpsc::unbounded_channel`, carried
/// through as an opaque value.
#[verifier::external_type_specification]
#[verifier::external_body]
#[verifier::reject_recursive_types(T)]
pub struct ExUnboundedReceiver<T>(tokio::sync::mpsc::UnboundedReceiver<T>);

/// `tokio::sync::mpsc::unbounded_channel` makes the two halves of a new
/// channel. Nothing is claimed of them.
pub assume_specification<T>[ tokio::sync::mpsc::unbounded_channel::<T> ]() -> (halves: (
    UnboundedSender<T>,
    UnboundedReceiver<T>,
));

/// Calls `UnboundedReceiver::try_recv`, which never waits, and keeps the item
/// if there was one. An empty channel and a closed one both give `None`.
/// Nothing is claimed of which item comes, nor of whether one comes. The
/// receiving half is a handle to its channel: the call takes an item out of
/// the channel and leaves the half the half of the same channel, which is
/// what the contract claims.
#[verifier::external_body]
pub(crate) fn try_receive<T>(receiver: &mut UnboundedReceiver<T>) -> (item: Option<T>)
    ensures
        *final(receiver) == *old(receiver),
{
    receiver.try_recv().ok()
}

/// Calls `UnboundedSender::send`, which never waits. Where the receiving half
/// is closed the call fails and hands the item back: that the item in the
/// error is the one that was passed is what the contract claims.
#[verifier::external_body]
pub(crate) fn send_on<T>(sender: &UnboundedSender<T>, item: T) -> (sent: Result<(), T>)
    ensures
        sent matches Err(back) ==> back == item,
{
    sender.send(item).map_err(|error| error.0)
}

/// Calls `UnboundedSender::clone`: one more sending half of the same channel.
/// A sending half is a handle to its channel, and the copy is a handle to the
/// same channel: that the two are the same half is what the contract claims.
#[verifier::external_body]
pub(crate) fn clone_sender<T>(sender: &UnboundedSender<T>) -> (copy: UnboundedSender<T>)
    ensures
        copy == *sender,
{
    sender.clone()
}

} // verus!
