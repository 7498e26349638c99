//! One channel, many workers: tasks leave the channel in the order in which
//! they were submitted, and whichever worker is free takes the next.

use crate::channel::channel_send;
use crate::pool::{after_send, Rejected, ThreadPool};
use std::sync::mpsc::{channel, Receiver, Sender};
use vstd::prelude::*;

verus! {

/// The sending side of a pool whose workers share one channel.
#[verifier::reject_recursive_types(T)]
pub struct SingleQueueMultiThread<T> {
    sender: Sender<T>,
    num_threads: usize,
}

impl<T> SingleQueueMultiThread<T> {
    #[verifier::type_invariant]
    spec fn well_formed(self) -> bool {
        self.num_threads > 0
    }

    /// The number of workers that share the channel.
    pub closed spec fn workers(self) -> nat {
        self.num_threads as nat
    }

    /// The sending side for `num_threads` workers, and the receiving end
    /// that they share.
    pub fn new(num_threads: usize) -> (made: (Self, Receiver<T>))
        requires
            num_threads > 0,
        ensures
            made.0.workers() == num_threads,
    {
        let (sender, receiver) = channel();
        (Self { sender, num_threads }, receiver)
    }

    /// The number of workers.
    pub fn num_threads(&self) -> (count: usize)
        ensures
            count == self.workers(),
            count > 0,
    {
        proof {
            use_type_invariant(self);
        }
        self.num_threads
    }
}

impl<T> ThreadPool<T> for SingleQueueMultiThread<T> {
    /// Hands `task` to the shared channel.
    ///
    /// Returns once the task is in the channel, not once it has run. It
    /// fails only when every worker is gone, and then gives `task` back.
    fn execute(&self, task: T) -> (accepted: Result<(), Rejected<T>>)
        ensures
            accepted matches Err(why) ==> why == Rejected::WorkerGone(task),
    {
        after_send(channel_send(&self.sender, task))
    }
}

} // verus!
