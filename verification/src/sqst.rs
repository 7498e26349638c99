//! One channel, one worker: tasks run one at a time, in the order in which
//! they were submitted.

use crate::channel::channel_send;
use crate::pool::{after_send, Rejected, ThreadPool};
use std::sync::mpsc::{channel, Receiver, Sender};
use vstd::prelude::*;

verus! {

/// The sending side of a pool with a single worker.
#[verifier::reject_recursive_types(T)]
pub struct SingleQueueSingleThread<T> {
    sender: Sender<T>,
}

impl<T> SingleQueueSingleThread<T> {
    /// The sending side, and the receiving end for the worker.
    pub fn new() -> (made: (Self, Receiver<T>)) {
        let (sender, receiver) = channel();
        (Self { sender }, receiver)
    }
}

impl<T> ThreadPool<T> for SingleQueueSingleThread<T> {
    /// Hands `task` to the channel.
    ///
    /// Returns once the task is in the channel, not once it has run. It
    /// fails only when the worker is gone, and then gives `task` back.
    fn execute(&self, task: T) -> (accepted: Result<(), Rejected<T>>)
        ensures
            accepted matches Err(why) ==> why == Rejected::WorkerGone(task),
    {
        after_send(channel_send(&self.sender, task))
    }
}

} // verus!
