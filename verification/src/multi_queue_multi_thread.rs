//! Round-robin dispatch: one private channel per worker, and a ticket
//! counter that says whose turn it is.

use crate::atomic_counter::{nth_slot, lemma_tickets_cycle, AtomicCounter};
use crate::channel::channel_send;
use crate::pool::{after_send, Rejected, ThreadPool};
use std::sync::mpsc::{channel, Receiver, Sender};
use vstd::prelude::*;

verus! {

/// How many of the first `calls` tickets, handed out one after another by a
/// fresh counter for `workers` workers, name worker `id`.
pub open spec fn share_of(id: nat, calls: nat, workers: nat) -> nat
    decreases calls,
{
    if calls == 0 {
        0
    } else {
        let before = share_of(id, (calls - 1) as nat, workers);
        if nth_slot((calls - 1) as nat, workers) == id {
            before + 1
        } else {
            before
        }
    }
}

/// The sending side of a round-robin pool: the ticket counter and the
/// sending end of each worker's channel.
#[verifier::reject_recursive_types(T)]
pub struct MultiQueueMultiThread<T> {
    next_thread: AtomicCounter,
    senders: Vec<Sender<T>>,
}

impl<T> MultiQueueMultiThread<T> {
    #[verifier::type_invariant]
    spec fn well_formed(self) -> bool {
        &&& self.senders@.len() > 0
        &&& self.next_thread.modulus() == self.senders@.len()
    }

    /// The number of workers, which is the number of channels.
    pub closed spec fn workers(self) -> nat {
        self.senders@.len()
    }

    /// The sending side for `num_threads` workers, and the receiving end of
    /// each worker's channel, worker `0` first.
    pub fn new(num_threads: usize) -> (made: (Self, Vec<Receiver<T>>))
        requires
            num_threads > 0,
        ensures
            made.0.workers() == num_threads,
            made.1@.len() == num_threads,
    {
        let mut senders: Vec<Sender<T>> = Vec::new();
        let mut receivers: Vec<Receiver<T>> = Vec::new();
        let mut count: usize = 0;
        while count < num_threads
            invariant
                count <= num_threads,
                senders@.len() == count,
                receivers@.len() == count,
            decreases num_threads - count,
        {
            let (sender, receiver) = channel();
            senders.push(sender);
            receivers.push(receiver);
            count += 1;
        }
        (Self { next_thread: AtomicCounter::new(num_threads), senders }, receivers)
    }

    /// The number of workers.
    pub fn num_threads(&self) -> (count: usize)
        ensures
            count == self.workers(),
            count > 0,
    {
        proof {
            use_type_invariant(self);
        }
        self.senders.len()
    }

    /// Hands `task` to the worker whose turn it is.
    ///
    /// Returns once the task is in the channel, not once it has run. It
    /// fails only when that worker is gone, and then gives `task` back.
    pub fn execute(&self, task: T) -> (accepted: Result<(), Rejected<T>>)
        ensures
            accepted matches Err(why) ==> why == Rejected::WorkerGone(task),
    {
        proof {
            use_type_invariant(self);
        }
        let turn: usize = self.next_thread.fetch_incr();
        self.send_to(turn, task)
    }

    /// Hands `task` to worker `id`, whatever the counter says.
    pub fn send_to(&self, id: usize, task: T) -> (accepted: Result<(), Rejected<T>>)
        requires
            id < self.workers(),
        ensures
            accepted matches Err(why) ==> why == Rejected::WorkerGone(task),
    {
        after_send(channel_send(&self.senders[id], task))
    }
}

impl<T> ThreadPool<T> for MultiQueueMultiThread<T> {
    /// Hands `task` to the worker whose turn it is.
    fn execute(&self, task: T) -> (accepted: Result<(), Rejected<T>>)
        ensures
            accepted matches Err(why) ==> why == Rejected::WorkerGone(task),
    {
        MultiQueueMultiThread::execute(self, task)
    }
}

/// Strict round-robin: while the tickets are handed out one after another,
/// after `calls` of them worker `id` was named `calls / workers` times, and
/// once more if the round under way has already reached it.
pub proof fn lemma_share(id: nat, calls: nat, workers: nat)
    requires
        0 < workers <= usize::MAX,
        id < workers,
    ensures
        share_of(id, calls, workers) == calls / workers + if id < calls % workers {
            1nat
        } else {
            0nat
        },
    decreases calls,
{
    if calls == 0 {
        vstd::arithmetic::div_mod::lemma_small_mod(0, workers);
        vstd::arithmetic::div_mod::lemma_basic_div(0, workers as int);
    } else {
        let before = (calls - 1) as nat;
        lemma_share(id, before, workers);
        lemma_tickets_cycle(before, workers);
        let q = before as int / workers as int;
        let r = before as int % workers as int;
        vstd::arithmetic::div_mod::lemma_fundamental_div_mod(before as int, workers as int);
        vstd::arithmetic::div_mod::lemma_mod_pos_bound(before as int, workers as int);
        if r + 1 == workers {
            assert(calls as int == (q + 1) * workers + 0) by (nonlinear_arith)
                requires
                    before as int == workers * q + r,
                    r + 1 == workers,
                    calls as int == before as int + 1,
            ;
            vstd::arithmetic::div_mod::lemma_fundamental_div_mod_converse(
                calls as int,
                workers as int,
                q + 1,
                0,
            );
        } else {
            assert(calls as int == q * workers + (r + 1)) by (nonlinear_arith)
                requires
                    before as int == workers * q + r,
                    calls as int == before as int + 1,
            ;
            vstd::arithmetic::div_mod::lemma_fundamental_div_mod_converse(
                calls as int,
                workers as int,
                q,
                r + 1,
            );
        }
    }
}

/// Even distribution: of `rounds * workers` tasks submitted one after
/// another, every worker gets exactly `rounds`, and task number `call` goes
/// to worker `call % workers`.
pub proof fn lemma_round_robin(id: nat, rounds: nat, call: nat, workers: nat)
    requires
        0 < workers <= usize::MAX,
        id < workers,
    ensures
        share_of(id, rounds * workers, workers) == rounds,
        nth_slot(call, workers) == call % workers,
{
    lemma_share(id, rounds * workers, workers);
    lemma_tickets_cycle(call, workers);
    vstd::arithmetic::div_mod::lemma_fundamental_div_mod_converse(
        (rounds * workers) as int,
        workers as int,
        rounds as int,
        0,
    );
}

} // verus!
