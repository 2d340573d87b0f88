//! Proofs about the digit model: the carry chain stays a single bit,
//! a dead carry never revives, and the threaded digit-by-digit sum
//! means exactly `value(a) + value(b)` over the unbounded integers.

use vstd::prelude::*;
use vstd::arithmetic::div_mod::{
    lemma_basic_div, lemma_fundamental_div_mod, lemma_small_mod,
};
use vstd::arithmetic::power2::{lemma2_to64, lemma_pow2_adds, pow2};
use crate::model::{
    base, carry_in_at, digit_add_carry, digit_add_result, digit_at, seq_value, sum_digit_at,
    value_prefix,
};

verus! {

/// The carry flowing between positions is always a single bit, at
/// every position of the chain.
pub proof fn lemma_carry_in_bound(a: Seq<u32>, b: Seq<u32>, i: int)
    ensures
        carry_in_at(a, b, i) <= 1,
    decreases i,
{
    if i > 0 {
        lemma_carry_in_bound(a, b, i - 1);
        let s = digit_at(a, i - 1) + digit_at(b, i - 1) + carry_in_at(a, b, i - 1);
        lemma_fundamental_div_mod(s, base() as int);
    }
}

/// Once the carry into some position at or above the end of `b` is
/// zero, the carry into every higher position is zero as well: adding
/// a zero digit with no carry cannot create one.
pub proof fn lemma_carry_zero_stays(a: Seq<u32>, b: Seq<u32>, i: int, j: int)
    requires
        b.len() <= i <= j,
        carry_in_at(a, b, i) == 0,
    ensures
        carry_in_at(a, b, j) == 0,
    decreases j - i,
{
    if i < j {
        assert(digit_at(b, j - 1) == 0);
        lemma_carry_zero_stays(a, b, i, j - 1);
        lemma_basic_div(digit_at(a, j - 1) as int, base() as int);
    }
}

/// At a position at or above the end of `b` that no carry reaches, the
/// threaded sum leaves the digit of `a` exactly as it was.
pub proof fn lemma_sum_digit_unchanged(a: Seq<u32>, b: Seq<u32>, i: int)
    requires
        b.len() <= i,
        carry_in_at(a, b, i) == 0,
    ensures
        sum_digit_at(a, b, i) == digit_at(a, i),
{
    lemma_small_mod(digit_at(a, i) as nat, base());
}

/// Reading digit positions past the end of a sequence adds nothing to
/// its value: they all hold zero.
pub proof fn lemma_value_prefix_past_end(s: Seq<u32>, i: int)
    requires
        s.len() <= i,
    ensures
        value_prefix(s, i) == seq_value(s),
    decreases i,
{
    if i > s.len() {
        assert(digit_at(s, i - 1) == 0);
        lemma_value_prefix_past_end(s, i - 1);
    }
}

/// The heart of ripple-carry addition: if the first `i` digits of
/// `res` are the digit-by-digit sums of `a` and `b` with the carry
/// threaded left to right, then together with the carry into position
/// `i` they stand for exactly `value(a) + value(b)` over the first `i`
/// positions — no information is lost at any step.
pub proof fn lemma_ripple_value(a: Seq<u32>, b: Seq<u32>, res: Seq<u32>, i: int)
    requires
        0 <= i <= res.len(),
        forall|j: int| 0 <= j < i ==> res[j] == sum_digit_at(a, b, j),
    ensures
        value_prefix(res, i) + carry_in_at(a, b, i) as nat * pow2((32 * i) as nat)
            == value_prefix(a, i) + value_prefix(b, i),
    decreases i,
{
    if i == 0 {
        lemma2_to64();
    } else {
        lemma_ripple_value(a, b, res, i - 1);
        let ai = digit_at(a, i - 1) as int;
        let bi = digit_at(b, i - 1) as int;
        let cin = carry_in_at(a, b, i - 1) as int;
        let cout = carry_in_at(a, b, i) as int;
        let di = sum_digit_at(a, b, i - 1) as int;
        let bs = base() as int;
        lemma_fundamental_div_mod(ai + bi + cin, bs);
        assert(di + cout * bs == ai + bi + cin);
        let p = pow2((32 * (i - 1)) as nat) as int;
        let pi = pow2((32 * i) as nat) as int;
        lemma_pow2_adds(32, (32 * (i - 1)) as nat);
        lemma2_to64();
        assert(pi == bs * p);
        assert(digit_at(res, i - 1) == res[i - 1]);
        assert(di * p + cout * pi == (ai + bi + cin) * p) by (nonlinear_arith)
            requires
                di + cout * bs == ai + bi + cin,
                pi == bs * p,
        ;
        assert((ai + bi + cin) * p == ai * p + bi * p + cin * p) by (nonlinear_arith);
    }
}

} // verus!
