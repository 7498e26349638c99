//! The standard library's lock and signal, as far as the queues use them.
//!
//! What a lock guards is whatever the other threads left there, so nothing
//! here promises anything of the contents found behind a lock, with one
//! exception: a wait that ends only once the sequence holds an item.

use std::collections::VecDeque;
use std::sync::{Condvar, Mutex, MutexGuard, TryLockError};
use vstd::prelude::*;

verus! {

/// `std::sync::Mutex`, carried as an opaque value.
#[verifier::external_type_specification]
#[verifier::external_body]
#[verifier::reject_recursive_types(T)]
pub struct ExMutex<T: ?Sized>(Mutex<T>);

/// `std::sync::MutexGuard`, carried as an opaque value: while one lives,
/// its lock is held.
#[verifier::external_type_specification]
#[verifier::external_body]
#[verifier::reject_recursive_types(T)]
pub struct ExMutexGuard<'a, T: ?Sized + 'a>(MutexGuard<'a, T>);

/// `std::sync::Condvar`, carried as an opaque value.
#[verifier::external_type_specification]
#[verifier::external_body]
pub struct ExCondvar(Condvar);

/// A thread ended abnormally while it held the lock: what the lock guards
/// may be inconsistent, and no operation goes on with it.
#[derive(Debug, Clone, Copy, PartialEq, Eq)]
pub struct LockPoisoned;

/// `Mutex::new`: a lock around the given value. Nothing is claimed of it.
pub assume_specification<T>[ Mutex::<T>::new ](t: T) -> Mutex<T>;

/// `Condvar::new`: a signal with no waiter. Nothing is claimed of it.
pub assume_specification[ Condvar::new ]() -> Condvar;

/// `Condvar::notify_one`: wakes one waiter, if there is one. It returns
/// nothing and nothing is claimed of it.
pub assume_specification[ Condvar::notify_one ](signal: &Condvar);

/// `Mutex::lock`: blocks until the lock is free and hands out its guard, or
/// reports that the lock is poisoned. Nothing is claimed of which it is, nor
/// of what the guard holds. A thread that already holds the lock must not
/// call it: the standard library then blocks forever or panics.
#[verifier::external_body]
pub(crate) fn mutex_lock<'a, T>(lock: &'a Mutex<VecDeque<T>>) -> (held: Result<
    MutexGuard<'a, VecDeque<T>>,
    LockPoisoned,
>) {
    match lock.lock() {
        Ok(guard) => Ok(guard),
        Err(_) => Err(LockPoisoned),
    }
}

/// `Mutex::try_lock`: the guard if the lock was free, `None` if another
/// holder has it, or the report that the lock is poisoned. Nothing is
/// claimed of which it is, nor of what the guard holds.
#[verifier::external_body]
pub(crate) fn mutex_try_lock<'a, T>(lock: &'a Mutex<VecDeque<T>>) -> (held: Result<
    Option<MutexGuard<'a, VecDeque<T>>>,
    LockPoisoned,
>) {
    match lock.try_lock() {
        Ok(guard) => Ok(Some(guard)),
        Err(TryLockError::WouldBlock) => Ok(None),
        Err(TryLockError::Poisoned(_)) => Err(LockPoisoned),
    }
}

/// `DerefMut` of a `MutexGuard`: the guarded sequence, for as long as the
/// guard is borrowed. Nothing is claimed of what it holds.
#[verifier::external_body]
pub(crate) fn guard_items<'a, 'g, T>(guard: &'a mut MutexGuard<'g, VecDeque<T>>) -> (items: &'a mut VecDeque<T>) {
    &mut *guard
}

/// `Option::as_deref_mut` on a `MutexGuard` that may be missing: the
/// guarded sequence if there is a guard, for as long as the guard is
/// borrowed, and `None` if there is none. Nothing is claimed of what the
/// sequence holds.
#[verifier::external_body]
pub(crate) fn held_items<'a, 'g, T>(held: &'a mut Option<MutexGuard<'g, VecDeque<T>>>) -> (items:
    Option<&'a mut VecDeque<T>>)
    ensures
        items.is_some() == old(held).is_some(),
{
    held.as_deref_mut()
}

/// Whether the sequence holds no item. This is the condition on which a
/// blocked `pop` goes on waiting.
pub fn is_drained<T>(items: &mut VecDeque<T>) -> (drained: bool)
    ensures
        drained == (old(items)@.len() == 0),
        final(items)@ == old(items)@,
{
    items.len() == 0
}

/// `Condvar::wait_while`, with `is_drained` as its condition: gives the lock
/// up and sleeps until woken, as often as the sequence is found empty, and
/// returns with the lock held once it is not. The guard is left in `keep`
/// and the guarded sequence is handed out. The claim is the one that the
/// standard library documents: on return the condition is false, so the
/// sequence holds an item. It may never return, and it reports a poisoned
/// lock where the standard library does.
#[verifier::external_body]
pub(crate) fn wait_fed<'a, 'g, T>(
    signal: &Condvar,
    guard: MutexGuard<'g, VecDeque<T>>,
    keep: &'a mut Option<MutexGuard<'g, VecDeque<T>>>,
) -> (fed: Result<&'a mut VecDeque<T>, LockPoisoned>)
    ensures
        fed matches Ok(items) ==> items@.len() > 0,
{
    match signal.wait_while(guard, |items| is_drained(items)) {
        Ok(guard) => Ok(&mut **keep.insert(guard)),
        Err(_) => Err(LockPoisoned),
    }
}

} // verus!
