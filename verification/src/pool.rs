//! The one operation that every pool offers.

use crate::sync::LockPoisoned;
use vstd::prelude::*;

verus! {

/// Why a pool did not take a task.
#[derive(Debug, PartialEq, Eq)]
pub enum Rejected<T> {
    /// The worker that the task was meant for is gone; here is the task.
    WorkerGone(T),
    /// The lock of the queue that the task was meant for is poisoned; the
    /// task is lost.
    LockPoisoned,
}

/// A pool of workers that takes tasks of type `T`.
pub trait ThreadPool<T> {
    /// Queues `task` to be run once by some worker, and returns without
    /// waiting for it to run.
    fn execute(&self, task: T) -> (accepted: Result<(), Rejected<T>>);
}

/// What a channel's answer to a send means for the pool: a refused task
/// comes back as `WorkerGone`.
pub fn after_send<T>(sent: Result<(), T>) -> (accepted: Result<(), Rejected<T>>)
    ensures
        accepted == match sent {
            Ok(_) => Ok::<(), Rejected<T>>(()),
            Err(back) => Err(Rejected::WorkerGone(back)),
        },
{
    match sent {
        Ok(_) => Ok(()),
        Err(back) => Err(Rejected::WorkerGone(back)),
    }
}

/// What a queue's answer to a push means for the pool: a poisoned lock
/// comes back as `LockPoisoned`.
pub fn after_queued<T>(queued: Result<(), LockPoisoned>) -> (accepted: Result<(), Rejected<T>>)
    ensures
        accepted == match queued {
            Ok(_) => Ok::<(), Rejected<T>>(()),
            Err(_) => Err(Rejected::<T>::LockPoisoned),
        },
{
    match queued {
        Ok(_) => Ok(()),
        Err(_) => Err(Rejected::LockPoisoned),
    }
}

} // verus!
