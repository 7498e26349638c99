//! The task queue of a worker: the same monitor as `Queue`, under the names
//! that the pools use for it.

use crate::queue::{append, pop_if_held, push_if_held, take_front};
use crate::sync::{
    guard_items, held_items, mutex_lock, mutex_try_lock, wait_fed, LockPoisoned,
};
use std::collections::VecDeque;
use std::sync::{Condvar, Mutex, MutexGuard};
use vstd::prelude::*;

verus! {

/// A first-in-first-out queue of tasks that any number of threads may fill
/// and drain.
#[derive(Debug)]
#[verifier::reject_recursive_types(T)]
pub struct TaskQueue<T> {
    data: Mutex<VecDeque<T>>,
    new_task_ready: Condvar,
}

impl<T> TaskQueue<T> {
    /// An empty queue that nobody holds.
    pub fn new() -> (queue: Self) {
        Self { data: Mutex::new(VecDeque::new()), new_task_ready: Condvar::new() }
    }

    /// Adds `val` at the back of the queue and wakes one waiting `pop`.
    ///
    /// Blocks while the queue is locked. Fails only on a poisoned lock, and
    /// then `val` is dropped.
    pub fn enque(&self, val: T) -> (done: Result<(), LockPoisoned>) {
        match mutex_lock(&self.data) {
            Ok(mut guard) => {
                append(guard_items(&mut guard), val);
            },
            Err(poisoned) => {
                return Err(poisoned);
            },
        }
        self.new_task_ready.notify_one();
        Ok(())
    }

    /// Removes the first task of the queue and returns it.
    ///
    /// Blocks while the queue is locked or empty: for ever, if nobody
    /// enqueues. Fails only on a poisoned lock.
    pub fn pop(&self) -> (front: Result<T, LockPoisoned>) {
        let guard = match mutex_lock(&self.data) {
            Ok(guard) => guard,
            Err(poisoned) => {
                return Err(poisoned);
            },
        };
        let mut keep: Option<MutexGuard<'_, VecDeque<T>>> = None;
        match wait_fed(&self.new_task_ready, guard, &mut keep) {
            Ok(items) => {
                let front = take_front(items);
                Ok(front.unwrap())
            },
            Err(poisoned) => Err(poisoned),
        }
    }

    /// Adds `val` at the back of the queue unless the queue is locked.
    ///
    /// Returns `Ok(false)` at once, and drops `val`, if another holder has
    /// the lock; else it does what `enque` does and returns `Ok(true)`.
    pub fn try_enque(&self, val: T) -> (pushed: Result<bool, LockPoisoned>) {
        match mutex_try_lock(&self.data) {
            Ok(mut held) => {
                let pushed = push_if_held(held_items(&mut held), val);
                if pushed {
                    self.new_task_ready.notify_one();
                }
                Ok(pushed)
            },
            Err(poisoned) => Err(poisoned),
        }
    }

    /// Removes the first task of the queue unless the queue is locked.
    ///
    /// The three outcomes stay apart: `Ok(None)` if another holder has the
    /// lock, `Ok(Some(None))` if the lock was free and the queue empty,
    /// `Ok(Some(Some(task)))` with the first task otherwise.
    pub fn try_pop(&self) -> (taken: Result<Option<Option<T>>, LockPoisoned>) {
        match mutex_try_lock(&self.data) {
            Ok(mut held) => Ok(pop_if_held(held_items(&mut held))),
            Err(poisoned) => Err(poisoned),
        }
    }

    /// Locks the queue and hands out the guard: until it is dropped, every
    /// `try_enque` and `try_pop` reports the queue as locked, and `enque`
    /// and `pop` wait.
    ///
    /// The thread that holds the guard must not call `enque`, `pop` or
    /// `lock` on this queue until the guard is dropped: the lock is not
    /// reentrant, and such a call never returns or panics.
    pub fn lock(&self) -> (held: Result<MutexGuard<'_, VecDeque<T>>, LockPoisoned>) {
        mutex_lock(&self.data)
    }
}

} // verus!
