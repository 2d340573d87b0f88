//! Digit-level kernel for multi-precision unsigned addition: a single
//! add-with-carry step over 32-bit digits, a fused multiply-add step,
//! and ripple-carry addition over little-endian digit sequences.

pub mod lemmas;
pub mod model;

use vstd::prelude::*;
use vstd::arithmetic::div_mod::lemma_fundamental_div_mod;
use vstd::arithmetic::power2::pow2;
use crate::lemmas::{
    lemma_carry_in_bound, lemma_carry_zero_stays, lemma_ripple_value,
    lemma_sum_digit_unchanged, lemma_value_prefix_past_end,
};
use crate::model::{base, carry_in_at, digit_add_carry, digit_add_result, seq_value, sum_digit_at};

verus! {

/// Computes `a` += `b` + `carry`, leaving the low 32 bits of the sum in
/// `a` and the overflow in `carry`. The equation in the first ensures
/// clause holds over the unbounded integers: no information is lost.
pub fn add_assign_with_carry(a: &mut u32, b: u32, carry: &mut u32)
    ensures
        *final(a) + *final(carry) as nat * base() == *old(a) + b + *old(carry),
        *final(a) == digit_add_result(*old(a), b, *old(carry)),
        *final(carry) == digit_add_carry(*old(a), b, *old(carry)),
        *old(carry) <= 1 ==> *final(carry) <= 1,
{
    let sum: u64 = *a as u64 + b as u64 + *carry as u64;
    proof {
        lemma_fundamental_div_mod(sum as int, base() as int);
    }
    *a = (sum % 0x1_0000_0000u64) as u32;
    *carry = (sum / 0x1_0000_0000u64) as u32;
}

/// Computes `a` += `b`, using long addition: `b` is added into the low
/// digits of `a` and the carry rippled on through the higher ones,
/// stopping as soon as it dies out. The returned digit is the overflow
/// past the top of `a`; it is always 0 or 1. Digit by digit, the
/// result is exactly the left-to-right threading of
/// `add_assign_with_carry`, and as a whole it satisfies
/// `value(a_new) + carry * 2^(32*n) == value(a_old) + value(b)`.
pub fn add_assign_big(a: &mut Vec<u32>, b: &[u32]) -> (carry: u32)
    requires
        b@.len() <= old(a)@.len(),
    ensures
        final(a)@.len() == old(a)@.len(),
        forall|i: int| 0 <= i < old(a)@.len() ==> final(a)@[i] == sum_digit_at(old(a)@, b@, i),
        carry == carry_in_at(old(a)@, b@, old(a)@.len() as int),
        carry <= 1,
        seq_value(final(a)@) + carry as nat * pow2((32 * old(a)@.len()) as nat)
            == seq_value(old(a)@) + seq_value(b@),
        forall|i: int|
            b@.len() <= i < old(a)@.len() && carry_in_at(old(a)@, b@, i) == 0
                ==> final(a)@[i] == old(a)@[i],
{
    let ghost a0 = a@;
    let n = a.len();
    let m = b.len();
    let mut carry: u32 = 0;
    let mut i: usize = 0;
    while i < m
        invariant
            i <= m,
            m == b@.len(),
            n == a0.len(),
            m <= n,
            a@.len() == n,
            carry == carry_in_at(a0, b@, i as int),
            forall|j: int| 0 <= j < i ==> a@[j] == sum_digit_at(a0, b@, j),
            forall|j: int| i <= j < n ==> a@[j] == a0[j],
        decreases m - i,
    {
        add_assign_with_carry(&mut a[i], b[i], &mut carry);
        i += 1;
    }
    while i < n && carry != 0
        invariant
            m <= i <= n,
            m == b@.len(),
            n == a0.len(),
            a@.len() == n,
            carry == carry_in_at(a0, b@, i as int),
            forall|j: int| 0 <= j < i ==> a@[j] == sum_digit_at(a0, b@, j),
            forall|j: int| i <= j < n ==> a@[j] == a0[j],
        decreases n - i,
    {
        add_assign_with_carry(&mut a[i], 0, &mut carry);
        i += 1;
    }
    proof {
        if i < n {
            lemma_carry_zero_stays(a0, b@, i as int, n as int);
            assert forall|j: int| i <= j < n implies a@[j] == sum_digit_at(a0, b@, j) by {
                lemma_carry_zero_stays(a0, b@, i as int, j);
                lemma_sum_digit_unchanged(a0, b@, j);
            }
        }
        lemma_carry_in_bound(a0, b@, n as int);
        lemma_ripple_value(a0, b@, a@, n as int);
        lemma_value_prefix_past_end(b@, n as int);
        assert forall|j: int|
            b@.len() <= j < n && carry_in_at(a0, b@, j) == 0 implies a@[j] == a0[j] by {
            lemma_sum_digit_unchanged(a0, b@, j);
        }
    }
    carry
}

/// Computes `a` += `b` * `c` + `carry` for one digit position, leaving
/// the low 32 bits in `a` and the high part in `carry`. Unlike the
/// plain add step, the carry here is a full digit: a product plus two
/// digits can overflow one position by up to `2^32 - 1` units. The
/// widened sum fits a 64-bit accumulator exactly, since
/// `(2^32-1)^2 + 2*(2^32-1) == 2^64 - 1`.
pub fn mul_add_assign_with_carry(a: &mut u32, b: u32, c: u32, carry: &mut u32)
    ensures
        *final(a) + *final(carry) as nat * base() == *old(a) + b * c + *old(carry),
{
    proof {
        assert((b as int) * (c as int) <= 0xffff_ffff * 0xffff_ffff) by (nonlinear_arith)
            requires
                b <= 0xffff_ffffu32,
                c <= 0xffff_ffffu32,
        ;
    }
    let sum: u64 = *a as u64 + b as u64 * c as u64 + *carry as u64;
    proof {
        lemma_fundamental_div_mod(sum as int, base() as int);
    }
    *a = (sum % 0x1_0000_0000u64) as u32;
    *carry = (sum / 0x1_0000_0000u64) as u32;
}

} // verus!
