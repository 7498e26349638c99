//! The arithmetic of the sample request handler: a digit out of the request
//! line, and a deliberately slow computation on it.

use vstd::arithmetic::power2::{
    lemma2_to64, lemma_pow2_strictly_increases, lemma_pow2_unfold, pow2,
};
use vstd::prelude::*;

verus! {

/// The sequence `1, 1, 2, 3, 5, 8, ..`.
pub open spec fn fib(n: nat) -> nat
    decreases n,
{
    if n <= 1 {
        1
    } else {
        fib((n - 1) as nat) + fib((n - 2) as nat)
    }
}

/// The value of an ASCII digit.
pub open spec fn digit_value(ascii: u8) -> nat
    recommends
        is_ascii_digit(ascii),
{
    (ascii - 48) as nat
}

/// Whether the byte is one of `'0'` to `'9'`.
pub open spec fn is_ascii_digit(ascii: u8) -> bool {
    48 <= ascii <= 57
}

/// Whether the byte is an ASCII digit.
pub fn is_digit(ascii: u8) -> (digit: bool)
    ensures
        digit == is_ascii_digit(ascii),
{
    48 <= ascii && ascii <= 57
}

/// The number that an ASCII digit stands for.
pub fn ascii_to_u64(ascii: u8) -> (value: u64)
    requires
        is_ascii_digit(ascii),
    ensures
        value == digit_value(ascii),
        value <= 9,
{
    let digit: u8 = ascii - 48;
    digit.into()
}

/// `fib(n)`, by the recursion that defines it.
pub fn fibonacci(n: u64) -> (value: u64)
    requires
        fib(n as nat) <= u64::MAX,
    ensures
        value == fib(n as nat),
    decreases n,
{
    match n {
        0 => 1,
        1 => 1,
        n => fibonacci(n - 1) + fibonacci(n - 2),
    }
}

/// The position of the digit in a request that starts with `GET /`.
pub const DIGIT_AT: usize = 5;

/// What a request is answered with: `fib` of five times the digit that
/// stands at `DIGIT_AT`, or nothing where no digit stands there.
pub open spec fn answer_of(request: Seq<u8>) -> Option<nat> {
    if request.len() > DIGIT_AT && is_ascii_digit(request[DIGIT_AT as int]) {
        Some(fib(5 * digit_value(request[DIGIT_AT as int])))
    } else {
        None
    }
}

/// Computes the answer to a request.
pub fn answer(request: &[u8]) -> (value: Option<u64>)
    ensures
        match value {
            Some(v) => answer_of(request@) == Some(v as nat),
            None => answer_of(request@).is_none(),
        },
{
    if request.len() > DIGIT_AT && is_digit(request[DIGIT_AT]) {
        let num: u64 = ascii_to_u64(request[DIGIT_AT]);
        proof {
            lemma_fib_fits((num * 5) as nat);
        }
        Some(fibonacci(num * 5))
    } else {
        None
    }
}

/// The sequence grows no faster than the powers of two.
pub proof fn lemma_fib_below_pow2(n: nat)
    ensures
        fib(n) <= pow2(n),
    decreases n,
{
    if n == 0 {
        lemma2_to64();
    } else if n == 1 {
        lemma2_to64();
    } else {
        lemma_fib_below_pow2((n - 1) as nat);
        lemma_fib_below_pow2((n - 2) as nat);
        lemma_pow2_unfold(n);
        lemma_pow2_unfold((n - 1) as nat);
    }
}

/// Up to its 64th member the sequence fits in a `u64`.
pub proof fn lemma_fib_fits(n: nat)
    requires
        n < 64,
    ensures
        fib(n) <= u64::MAX,
{
    lemma_fib_below_pow2(n);
    lemma_pow2_strictly_increases(n, 64);
    lemma2_to64();
}

} // verus!
