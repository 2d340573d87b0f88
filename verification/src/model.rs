//! Mathematical model of little-endian digit sequences and of the
//! carry chain that threads one addition through them.

use vstd::prelude::*;
use vstd::arithmetic::power2::pow2;

verus! {

/// One unit of the next-higher digit position: 2^32.
pub open spec fn base() -> nat {
    0x1_0000_0000
}

/// The digit that one add-with-carry step leaves at a position:
/// the low 32 bits of `a + b + c`.
pub open spec fn digit_add_result(a: u32, b: u32, c: u32) -> u32 {
    ((a + b + c) % (base() as int)) as u32
}

/// The carry that one add-with-carry step sends to the next position:
/// the part of `a + b + c` above the low 32 bits.
pub open spec fn digit_add_carry(a: u32, b: u32, c: u32) -> u32 {
    ((a + b + c) / (base() as int)) as u32
}

/// Digit `i` of `s`; positions outside the sequence hold zero, so a
/// short addend reads as if padded with zero digits.
pub open spec fn digit_at(s: Seq<u32>, i: int) -> u32 {
    if 0 <= i < s.len() {
        s[i]
    } else {
        0u32
    }
}

/// The carry flowing into position `i` when `b` is added into `a`
/// digit by digit, starting with no carry at position zero.
pub open spec fn carry_in_at(a: Seq<u32>, b: Seq<u32>, i: int) -> u32
    decreases i,
{
    if i <= 0 {
        0u32
    } else {
        digit_add_carry(digit_at(a, i - 1), digit_at(b, i - 1), carry_in_at(a, b, i - 1))
    }
}

/// The digit that position `i` holds after `b` is added into `a` digit
/// by digit with the carry threaded left to right.
pub open spec fn sum_digit_at(a: Seq<u32>, b: Seq<u32>, i: int) -> u32 {
    digit_add_result(digit_at(a, i), digit_at(b, i), carry_in_at(a, b, i))
}

/// The value of the first `i` digit positions of `s`, read
/// little-endian; positions past the end of `s` count as zero.
pub open spec fn value_prefix(s: Seq<u32>, i: int) -> nat
    decreases i,
{
    if i <= 0 {
        0
    } else {
        value_prefix(s, i - 1) + digit_at(s, i - 1) as nat * pow2((32 * (i - 1)) as nat)
    }
}

/// The magnitude that the digit sequence `s` stands for:
/// the sum of `s[i] * 2^(32*i)` over all positions.
pub open spec fn seq_value(s: Seq<u32>) -> nat {
    value_prefix(s, s.len() as int)
}

} // verus!
