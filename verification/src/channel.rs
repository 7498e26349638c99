//! The standard library's hand-off channel, as far as the pools use it.

use std::sync::mpsc::{Receiver, Sender};
use vstd::prelude::*;

verus! {

/// `std::sync::mpsc::Sender`, carried as an opaque value.
#[verifier::external_type_specification]
#[verifier::external_body]
#[verifier::reject_recursive_types(T)]
pub struct ExSender<T>(Sender<T>);

/// `std::sync::mpsc::Receiver`, carried as an opaque value.
#[verifier::external_type_specification]
#[verifier::external_body]
#[verifier::reject_recursive_types(T)]
pub struct ExReceiver<T>(Receiver<T>);

/// `mpsc::channel`: a new channel, as its sending and its receiving end.
/// Nothing is claimed of either.
pub assume_specification<T>[ std::sync::mpsc::channel::<T> ]() -> (ends: (Sender<T>, Receiver<T>));

/// `Sender::send`: hands `task` to the channel and never blocks. It fails
/// only when the receiving end is gone, and then, as the standard library
/// documents, gives the very value back.
#[verifier::external_body]
pub(crate) fn channel_send<T>(sender: &Sender<T>, task: T) -> (sent: Result<(), T>)
    ensures
        sent matches Err(back) ==> back == task,
{
    match sender.send(task) {
        Ok(()) => Ok(()),
        Err(refused) => Err(refused.0),
    }
}

/// `Receiver::recv`: blocks until a value arrives and hands it out, or
/// returns `None` once every sending end is gone and the channel is drained.
/// Nothing is claimed of which it is, nor of the value.
#[verifier::external_body]
pub(crate) fn channel_recv<T>(receiver: &Receiver<T>) -> (received: Option<T>) {
    match receiver.recv() {
        Ok(task) => Some(task),
        Err(_) => None,
    }
}

} // verus!
