//! A lock-free counter that hands out tickets `0, 1, .., wrap_at - 1, 0, ..`.

use std::sync::atomic::{AtomicUsize, Ordering};
use vstd::prelude::*;

verus! {

/// The value at which the raw counter is reset: the largest multiple of
/// `wrap_at` that a `usize` can hold.
pub open spec fn cap_of(wrap_at: nat) -> nat
    recommends
        wrap_at > 0,
{
    (usize::MAX as nat - (usize::MAX as nat) % wrap_at) as nat
}

/// The raw counter after one undisturbed call that found it at `raw`:
/// one more, or zero once the cap is reached.
pub open spec fn raw_next(raw: nat, cap: nat) -> nat {
    if raw + 1 == cap {
        0
    } else {
        raw + 1
    }
}

/// The raw counter after `calls` calls made one after another on a fresh
/// counter.
pub open spec fn raw_after(calls: nat, cap: nat) -> nat
    decreases calls,
{
    if calls == 0 {
        0
    } else {
        raw_next(raw_after((calls - 1) as nat, cap), cap)
    }
}

/// The ticket that a call hands out when it finds the raw counter at `raw`.
pub open spec fn slot_at(raw: nat, wrap_at: nat) -> nat
    recommends
        wrap_at > 0,
{
    raw % wrap_at
}

/// The ticket of call number `calls` (counted from zero) in a run of calls
/// made one after another on a fresh counter.
pub open spec fn nth_slot(calls: nat, wrap_at: nat) -> nat
    recommends
        wrap_at > 0,
{
    slot_at(raw_after(calls, cap_of(wrap_at)), wrap_at)
}

/// One of the two atomic steps that a call is made of.
pub enum CounterStep {
    /// The raw counter is read and one is added to it, wrapping around at
    /// the largest `usize`.
    FetchAdd,
    /// The raw counter is set to zero if it stands at the cap.
    Reset,
}

/// The raw counter after one atomic step.
pub open spec fn raw_after_step(raw: nat, cap: nat, step: CounterStep) -> nat {
    match step {
        CounterStep::FetchAdd => if raw >= usize::MAX {
            0
        } else {
            raw + 1
        },
        CounterStep::Reset => if raw == cap {
            0
        } else {
            raw
        },
    }
}

/// How many of the steps read the counter.
pub open spec fn fetches(steps: Seq<CounterStep>) -> nat
    decreases steps.len(),
{
    if steps.len() == 0 {
        0
    } else {
        let rest = fetches(steps.drop_first());
        match steps[0] {
            CounterStep::FetchAdd => rest + 1,
            CounterStep::Reset => rest,
        }
    }
}

/// The tickets that the reading steps hand out, in the order in which the
/// steps take place, when the steps of any number of callers are run in
/// the given order on a raw counter that stands at `raw`.
pub open spec fn tickets_of(raw: nat, cap: nat, wrap_at: nat, steps: Seq<CounterStep>) -> Seq<nat>
    decreases steps.len(),
{
    if steps.len() == 0 {
        Seq::empty()
    } else {
        let rest = tickets_of(raw_after_step(raw, cap, steps[0]), cap, wrap_at, steps.drop_first());
        match steps[0] {
            CounterStep::FetchAdd => seq![slot_at(raw, wrap_at)] + rest,
            CounterStep::Reset => rest,
        }
    }
}

/// An atomic counter which wraps around at a chosen value.
pub struct AtomicCounter {
    counter: AtomicUsize,
    counter_cap: usize,
    wrap_at: usize,
}

/// The reset value for `wrap_at`, computed without overflow.
pub fn counter_cap(wrap_at: usize) -> (cap: usize)
    requires
        wrap_at > 0,
    ensures
        cap == cap_of(wrap_at as nat),
        cap >= wrap_at,
        cap % wrap_at == 0,
        usize::MAX - cap < wrap_at,
{
    let rest: usize = usize::MAX % wrap_at;
    proof {
        lemma_cap_is_multiple(wrap_at as nat);
    }
    usize::MAX - rest
}

/// The ticket for a fetched raw value.
pub fn slot_of(raw: usize, wrap_at: usize) -> (slot: usize)
    requires
        wrap_at > 0,
    ensures
        slot == slot_at(raw as nat, wrap_at as nat),
        slot < wrap_at,
{
    raw % wrap_at
}

impl AtomicCounter {
    #[verifier::type_invariant]
    spec fn well_formed(self) -> bool {
        &&& self.wrap_at > 0
        &&& self.counter_cap == cap_of(self.wrap_at as nat)
    }

    /// The modulus that this counter was made with.
    pub closed spec fn modulus(self) -> nat {
        self.wrap_at as nat
    }

    /// The value at which this counter resets its raw count.
    pub closed spec fn cap(self) -> nat {
        self.counter_cap as nat
    }

    /// Creates a counter that starts at `0` and wraps around at `wrap_at`,
    /// which it therefore never hands out.
    pub fn new(wrap_at: usize) -> (counter: Self)
        requires
            wrap_at > 0,
        ensures
            counter.modulus() == wrap_at,
            counter.cap() == cap_of(wrap_at as nat),
    {
        Self { counter: AtomicUsize::new(0), counter_cap: counter_cap(wrap_at), wrap_at }
    }

    /// The modulus that this counter was made with.
    pub fn wrap_at(&self) -> (wrap_at: usize)
        ensures
            wrap_at == self.modulus(),
            wrap_at > 0,
    {
        proof {
            use_type_invariant(self);
        }
        self.wrap_at
    }

    /// Adds `1` to the raw counter and returns the ticket of the value found.
    ///
    /// The raw value is whatever the other threads left there, so the
    /// contract bounds the ticket and no more; `nth_slot` says which
    /// tickets a run of undisturbed calls gets.
    pub fn fetch_incr(&self) -> (slot: usize)
        ensures
            slot < self.modulus(),
    {
        proof {
            use_type_invariant(self);
        }
        let current: usize = self.counter.fetch_add(1, Ordering::AcqRel);
        let _ = self.counter.compare_exchange(
            self.counter_cap,
            0,
            Ordering::AcqRel,
            Ordering::Relaxed,
        );
        slot_of(current, self.wrap_at)
    }
}

/// The cap is the largest multiple of the modulus that a `usize` holds: a
/// positive multiple, with less than one modulus of room above it.
pub proof fn lemma_cap_is_multiple(wrap_at: nat)
    requires
        0 < wrap_at <= usize::MAX,
    ensures
        cap_of(wrap_at) >= wrap_at,
        cap_of(wrap_at) <= usize::MAX,
        cap_of(wrap_at) % wrap_at == 0,
        cap_of(wrap_at) == wrap_at * (usize::MAX as nat / wrap_at),
        usize::MAX - cap_of(wrap_at) < wrap_at,
{
    vstd::arithmetic::div_mod::lemma_mod_pos_bound(usize::MAX as int, wrap_at as int);
    let m = usize::MAX as nat;
    vstd::arithmetic::div_mod::lemma_fundamental_div_mod(m as int, wrap_at as int);
    let q = m / wrap_at;
    assert(q >= 1) by (nonlinear_arith)
        requires
            q == m / wrap_at,
            0 < wrap_at <= m,
    ;
    assert(wrap_at * q >= wrap_at) by (nonlinear_arith)
        requires
            q >= 1,
    ;
    vstd::arithmetic::div_mod::lemma_mod_multiples_basic(q as int, wrap_at as int);
    assert(wrap_at * q == q * wrap_at) by (nonlinear_arith);
}

/// Calls made one after another walk the raw counter through `0 .. cap`.
pub proof fn lemma_raw_after(calls: nat, cap: nat)
    requires
        cap > 0,
    ensures
        raw_after(calls, cap) == calls % cap,
    decreases calls,
{
    if calls > 0 {
        let before = (calls - 1) as nat;
        lemma_raw_after(before, cap);
        vstd::arithmetic::div_mod::lemma_fundamental_div_mod(before as int, cap as int);
        vstd::arithmetic::div_mod::lemma_fundamental_div_mod(calls as int, cap as int);
        let q = before as int / cap as int;
        let r = before as int % cap as int;
        vstd::arithmetic::div_mod::lemma_mod_pos_bound(before as int, cap as int);
        if r + 1 == cap {
            assert(calls as int == (q + 1) * cap + 0) by (nonlinear_arith)
                requires
                    before as int == cap * q + r,
                    r + 1 == cap,
                    calls as int == before as int + 1,
            ;
            vstd::arithmetic::div_mod::lemma_fundamental_div_mod_converse_mod(
                calls as int,
                cap as int,
                q + 1,
                0,
            );
        } else {
            assert(calls as int == q * cap + (r + 1)) by (nonlinear_arith)
                requires
                    before as int == cap * q + r,
                    calls as int == before as int + 1,
            ;
            vstd::arithmetic::div_mod::lemma_fundamental_div_mod_converse_mod(
                calls as int,
                cap as int,
                q,
                r + 1,
            );
        }
    } else {
        vstd::arithmetic::div_mod::lemma_small_mod(0, cap);
    }
}

/// Calls made one after another on a fresh counter get the tickets
/// `0, 1, .., wrap_at - 1` over and over, with none skipped or repeated:
/// call number `calls` gets `calls % wrap_at`.
pub proof fn lemma_tickets_cycle(calls: nat, wrap_at: nat)
    requires
        0 < wrap_at <= usize::MAX,
    ensures
        nth_slot(calls, wrap_at) == calls % wrap_at,
        nth_slot(calls, wrap_at) < wrap_at,
        nth_slot(calls + wrap_at, wrap_at) == nth_slot(calls, wrap_at),
{
    lemma_cap_is_multiple(wrap_at);
    let cap = cap_of(wrap_at);
    let q = usize::MAX as nat / wrap_at;
    lemma_raw_after(calls, cap);
    lemma_raw_after(calls + wrap_at, cap);
    assert(q > 0) by (nonlinear_arith)
        requires
            wrap_at * q >= wrap_at,
            wrap_at > 0,
    ;
    vstd::arithmetic::div_mod::lemma_mod_mod(calls as int, wrap_at as int, q as int);
    vstd::arithmetic::div_mod::lemma_mod_mod(
        (calls + wrap_at) as int,
        wrap_at as int,
        q as int,
    );
    vstd::arithmetic::div_mod::lemma_mod_add_multiples_vanish(calls as int, wrap_at as int);
}

/// An undisturbed call is a read followed by a reset.
pub proof fn lemma_call_is_two_steps(raw: nat, cap: nat)
    requires
        raw < cap <= usize::MAX,
    ensures
        raw_after_step(
            raw_after_step(raw, cap, CounterStep::FetchAdd),
            cap,
            CounterStep::Reset,
        ) == raw_next(raw, cap),
{
}

/// Concurrent callers get consecutive tickets: in whatever order the
/// atomic steps of their calls take place, as long as the raw counter stays
/// below the cap, the reads hand out `raw % wrap_at`, `(raw + 1) % wrap_at`
/// and so on, one each. So `k` callers of a fresh counter get, between
/// them, exactly the tickets `0 % wrap_at, .., (k - 1) % wrap_at`.
pub proof fn lemma_interleaved_tickets(raw: nat, wrap_at: nat, steps: Seq<CounterStep>)
    requires
        0 < wrap_at <= usize::MAX,
        raw + fetches(steps) < cap_of(wrap_at),
    ensures
        tickets_of(raw, cap_of(wrap_at), wrap_at, steps).len() == fetches(steps),
        forall|i: int|
            0 <= i < fetches(steps) ==> #[trigger] tickets_of(
                raw,
                cap_of(wrap_at),
                wrap_at,
                steps,
            )[i] == (raw + i) % (wrap_at as int),
    decreases steps.len(),
{
    lemma_cap_is_multiple(wrap_at);
    let cap = cap_of(wrap_at);
    if steps.len() > 0 {
        let tail = steps.drop_first();
        match steps[0] {
            CounterStep::FetchAdd => {
                lemma_interleaved_tickets(raw + 1, wrap_at, tail);
                let rest = tickets_of(raw + 1, cap, wrap_at, tail);
                let all = tickets_of(raw, cap, wrap_at, steps);
                assert(all == seq![slot_at(raw, wrap_at)] + rest);
                assert forall|i: int| 0 <= i < fetches(steps) implies #[trigger] all[i] == (raw
                    + i) % (wrap_at as int) by {
                    if i > 0 {
                        assert(all[i] == rest[i - 1]);
                    }
                }
            },
            CounterStep::Reset => {
                lemma_interleaved_tickets(raw, wrap_at, tail);
            },
        }
    }
}

} // verus!
