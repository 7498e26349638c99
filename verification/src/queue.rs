//! A monitor: a locked first-in-first-out sequence with a signal that says
//! "no longer empty".
//!
//! The operations that take `&self` work on whatever the other threads left
//! behind the lock, so their contracts say which outcome means what and no
//! more. What one operation does to the sequence that it finds is stated
//! exactly, on `append` and `take_front`, over the model below.

use crate::sync::{
    guard_items, held_items, mutex_lock, mutex_try_lock, wait_fed, LockPoisoned,
};
use std::collections::VecDeque;
use std::sync::{Condvar, Mutex, MutexGuard};
use vstd::prelude::*;

verus! {

/// The sequence after `val` was pushed: `val` stands last.
pub open spec fn after_push<T>(items: Seq<T>, val: T) -> Seq<T> {
    items.push(val)
}

/// What a pop hands out: the first item, or nothing from an empty sequence.
pub open spec fn front_of<T>(items: Seq<T>) -> Option<T> {
    if items.len() == 0 {
        None
    } else {
        Some(items[0])
    }
}

/// The sequence after a pop: all but the first item.
pub open spec fn after_pop<T>(items: Seq<T>) -> Seq<T> {
    if items.len() == 0 {
        items
    } else {
        items.subrange(1, items.len() as int)
    }
}

/// The sequence after the items of `vals` were pushed, first to last.
pub open spec fn after_pushes<T>(items: Seq<T>, vals: Seq<T>) -> Seq<T>
    decreases vals.len(),
{
    if vals.len() == 0 {
        items
    } else {
        after_pushes(after_push(items, vals[0]), vals.drop_first())
    }
}

/// What `count` pops in a row hand out, first to last; pops from an empty
/// sequence add nothing.
pub open spec fn popped<T>(items: Seq<T>, count: nat) -> Seq<T>
    decreases count,
{
    if count == 0 || items.len() == 0 {
        Seq::empty()
    } else {
        seq![items[0]] + popped(after_pop(items), (count - 1) as nat)
    }
}

/// One operation on a queue, as it takes place under the lock.
pub enum QueueOp<T> {
    /// A push of the given item.
    Push(T),
    /// A pop; on an empty queue it takes nothing.
    Pop,
}

/// The sequence after the operations took place, first to last.
pub open spec fn queue_after<T>(items: Seq<T>, ops: Seq<QueueOp<T>>) -> Seq<T>
    decreases ops.len(),
{
    if ops.len() == 0 {
        items
    } else {
        match ops[0] {
            QueueOp::Push(val) => queue_after(after_push(items, val), ops.drop_first()),
            QueueOp::Pop => queue_after(after_pop(items), ops.drop_first()),
        }
    }
}

/// What the pops among the operations hand out, first to last.
pub open spec fn handed_out<T>(items: Seq<T>, ops: Seq<QueueOp<T>>) -> Seq<T>
    decreases ops.len(),
{
    if ops.len() == 0 {
        Seq::empty()
    } else {
        match ops[0] {
            QueueOp::Push(val) => handed_out(after_push(items, val), ops.drop_first()),
            QueueOp::Pop => {
                let rest = handed_out(after_pop(items), ops.drop_first());
                match front_of(items) {
                    Some(front) => seq![front] + rest,
                    None => rest,
                }
            },
        }
    }
}

/// What the pushes among the operations put in, first to last.
pub open spec fn pushed_by<T>(ops: Seq<QueueOp<T>>) -> Seq<T>
    decreases ops.len(),
{
    if ops.len() == 0 {
        Seq::empty()
    } else {
        let rest = pushed_by(ops.drop_first());
        match ops[0] {
            QueueOp::Push(val) => seq![val] + rest,
            QueueOp::Pop => rest,
        }
    }
}

/// Puts `val` at the back of the sequence.
pub fn append<T>(items: &mut VecDeque<T>, val: T)
    ensures
        final(items)@ == after_push(old(items)@, val),
{
    items.push_back(val);
}

/// Takes the first item out of the sequence, if there is one.
pub fn take_front<T>(items: &mut VecDeque<T>) -> (front: Option<T>)
    ensures
        front == front_of(old(items)@),
        final(items)@ == after_pop(old(items)@),
{
    let front = items.pop_front();
    proof {
        if old(items)@.len() > 0 {
            assert(final(items)@ =~= old(items)@.subrange(1, old(items)@.len() as int));
        }
    }
    front
}

/// The non-blocking push once the lock was tried, given the guarded
/// sequence if the lock was had: with it, `val` goes to its back and the
/// result is `true`; without it, `val` is dropped and the result is `false`.
pub fn push_if_held<T>(held: Option<&mut VecDeque<T>>, val: T) -> (pushed: bool)
    ensures
        match held {
            Some(items) => pushed && final(items)@ == after_push(items@, val),
            None => !pushed,
        },
{
    match held {
        Some(items) => {
            append(items, val);
            true
        },
        None => false,
    }
}

/// The non-blocking pop once the lock was tried, given the guarded
/// sequence if the lock was had. The three outcomes stay apart: `None`
/// without the lock, `Some(None)` from an empty sequence, and
/// `Some(Some(front))` with the first item, which then leaves the sequence.
pub fn pop_if_held<T>(held: Option<&mut VecDeque<T>>) -> (taken: Option<Option<T>>)
    ensures
        match held {
            Some(items) => taken == Some(front_of(items@)) && final(items)@ == after_pop(
                items@,
            ),
            None => taken.is_none(),
        },
{
    match held {
        Some(items) => Some(take_front(items)),
        None => None,
    }
}

/// A queue that any number of threads may push to and pop from.
#[derive(Debug)]
#[verifier::reject_recursive_types(T)]
pub struct Queue<T> {
    queue: Mutex<VecDeque<T>>,
    new_task_ready: Condvar,
}

impl<T> Queue<T> {
    /// An empty queue that nobody holds.
    pub fn new() -> (queue: Self) {
        Self { queue: Mutex::new(VecDeque::new()), new_task_ready: Condvar::new() }
    }

    /// Adds `val` at the back of the queue and wakes one waiting `pop`.
    ///
    /// Blocks while the queue is locked. Fails only on a poisoned lock, and
    /// then `val` is dropped.
    pub fn push(&self, val: T) -> (done: Result<(), LockPoisoned>) {
        match mutex_lock(&self.queue) {
            Ok(mut guard) => {
                append(guard_items(&mut guard), val);
            },
            Err(poisoned) => {
                return Err(poisoned);
            },
        }
        self.new_task_ready.notify_one();
        Ok(())
    }

    /// Removes the first item of the queue and returns it.
    ///
    /// Blocks while the queue is locked or empty: for ever, if nobody
    /// pushes. Fails only on a poisoned lock.
    pub fn pop(&self) -> (front: Result<T, LockPoisoned>) {
        let guard = match mutex_lock(&self.queue) {
            Ok(guard) => guard,
            Err(poisoned) => {
                return Err(poisoned);
            },
        };
        let mut keep: Option<MutexGuard<'_, VecDeque<T>>> = None;
        match wait_fed(&self.new_task_ready, guard, &mut keep) {
            Ok(items) => {
                let front = take_front(items);
                Ok(front.unwrap())
            },
            Err(poisoned) => Err(poisoned),
        }
    }

    /// Adds `val` at the back of the queue unless the queue is locked.
    ///
    /// Returns `Ok(false)` at once, and drops `val`, if another holder has
    /// the lock; else it does what `push` does and returns `Ok(true)`.
    pub fn try_push(&self, val: T) -> (pushed: Result<bool, LockPoisoned>) {
        match mutex_try_lock(&self.queue) {
            Ok(mut held) => {
                let pushed = push_if_held(held_items(&mut held), val);
                if pushed {
                    self.new_task_ready.notify_one();
                }
                Ok(pushed)
            },
            Err(poisoned) => Err(poisoned),
        }
    }

    /// Removes the first item of the queue unless the queue is locked.
    ///
    /// The three outcomes stay apart: `Ok(None)` if another holder has the
    /// lock, `Ok(Some(None))` if the lock was free and the queue empty,
    /// `Ok(Some(Some(item)))` with the first item otherwise.
    pub fn try_pop(&self) -> (taken: Result<Option<Option<T>>, LockPoisoned>) {
        match mutex_try_lock(&self.queue) {
            Ok(mut held) => Ok(pop_if_held(held_items(&mut held))),
            Err(poisoned) => Err(poisoned),
        }
    }

    /// Locks the queue and hands out the guard: until it is dropped, every
    /// `try_push` and `try_pop` reports the queue as locked, and `push` and
    /// `pop` wait.
    ///
    /// The thread that holds the guard must not call `push`, `pop` or
    /// `lock` on this queue until the guard is dropped: the lock is not
    /// reentrant, and such a call never returns or panics.
    pub fn lock(&self) -> (held: Result<MutexGuard<'_, VecDeque<T>>, LockPoisoned>) {
        mutex_lock(&self.queue)
    }
}

/// Pushing appends: after the items of `vals` were pushed, the sequence is
/// the old one followed by `vals`.
pub proof fn lemma_pushes_append<T>(items: Seq<T>, vals: Seq<T>)
    ensures
        after_pushes(items, vals) == items + vals,
    decreases vals.len(),
{
    if vals.len() == 0 {
        assert(items + vals =~= items);
    } else {
        lemma_pushes_append(after_push(items, vals[0]), vals.drop_first());
        assert(items.push(vals[0]) + vals.drop_first() =~= items + vals);
    }
}

/// Popping takes from the front: `count` pops hand out the first `count`
/// items in their order, as far as there are any.
pub proof fn lemma_pops_take_prefix<T>(items: Seq<T>, count: nat)
    ensures
        popped(items, count) == items.subrange(
            0,
            if count <= items.len() {
                count as int
            } else {
                items.len() as int
            },
        ),
    decreases count,
{
    let upto = if count <= items.len() {
        count as int
    } else {
        items.len() as int
    };
    if count == 0 || items.len() == 0 {
        assert(popped(items, count) =~= items.subrange(0, upto));
    } else {
        let rest = after_pop(items);
        lemma_pops_take_prefix(rest, (count - 1) as nat);
        assert(seq![items[0]] + rest.subrange(0, upto - 1) =~= items.subrange(0, upto));
    }
}

/// First in, first out: whatever a queue holds, and whichever items are
/// then pushed in whatever order, as many pops as there are items hand out
/// first what the queue held and then the pushed items, each in the order
/// in which it went in. So no two items of one pusher ever change places.
pub proof fn lemma_fifo<T>(items: Seq<T>, vals: Seq<T>)
    ensures
        popped(after_pushes(items, vals), items.len() + vals.len()) == items + vals,
        popped(after_pushes(Seq::empty(), vals), vals.len()) == vals,
{
    lemma_pushes_append(items, vals);
    lemma_pops_take_prefix(items + vals, items.len() + vals.len());
    assert((items + vals).subrange(0, (items.len() + vals.len()) as int) =~= items + vals);
    lemma_pushes_append(Seq::<T>::empty(), vals);
    lemma_pops_take_prefix(Seq::<T>::empty() + vals, vals.len());
    assert(Seq::<T>::empty() + vals =~= vals);
    assert(vals.subrange(0, vals.len() as int) =~= vals);
}

/// Nothing is lost, doubled or reordered: the lock makes the pushes and
/// pops of all threads take place one after another, and in whatever order
/// they do, what the pops handed out, followed by what is still waiting, is
/// what the queue held at first followed by what was pushed. So every item
/// leaves the queue at most once, and two items of one pusher leave it in
/// the order in which they went in.
pub proof fn lemma_queue_keeps_order<T>(items: Seq<T>, ops: Seq<QueueOp<T>>)
    ensures
        handed_out(items, ops) + queue_after(items, ops) == items + pushed_by(ops),
    decreases ops.len(),
{
    if ops.len() == 0 {
        assert(handed_out(items, ops) + queue_after(items, ops) =~= items + pushed_by(ops));
    } else {
        let tail = ops.drop_first();
        match ops[0] {
            QueueOp::Push(val) => {
                lemma_queue_keeps_order(after_push(items, val), tail);
                assert(items.push(val) + pushed_by(tail) =~= items + (seq![val] + pushed_by(
                    tail,
                )));
            },
            QueueOp::Pop => {
                lemma_queue_keeps_order(after_pop(items), tail);
                if items.len() > 0 {
                    let out = handed_out(after_pop(items), tail);
                    let left = queue_after(after_pop(items), tail);
                    assert((seq![items[0]] + out) + left =~= seq![items[0]] + (out + left));
                    assert(seq![items[0]] + (after_pop(items) + pushed_by(tail)) =~= items
                        + pushed_by(tail));
                }
            },
        }
    }
}

} // verus!
