//! Bit-level reasoning about IEEE-754 single-precision values.
//!
//! Vector components travel through this crate as `u32` bit patterns. This
//! module decides, from the bits alone, whether a component is finite or
//! (signed) zero, and defines the total order by which similarity scores are
//! ranked: `score_key` maps a bit pattern to a `u32` key whose unsigned order
//! agrees with the numeric order of the finite values the patterns denote
//! (the two zeroes tie numerically and are ordered `-0` before `+0` by key).

use vstd::prelude::*;

verus! {

/// A bit pattern denotes a finite value exactly when its exponent field is
/// not all ones (all ones means an infinity or a NaN).
pub open spec fn is_finite_bits(b: u32) -> bool {
    (b >> 23) & 0xff != 0xff
}

/// A bit pattern denotes `+0` or `-0` exactly when everything but the sign
/// bit is clear.
pub open spec fn is_zero_bits(b: u32) -> bool {
    b & 0x7fff_ffff == 0
}

/// Every component of the vector is finite.
pub open spec fn all_finite(v: Seq<u32>) -> bool {
    forall|i: int| 0 <= i < v.len() ==> is_finite_bits(#[trigger] v[i])
}

/// Every component of the vector is a signed zero. Such a vector has
/// Euclidean norm exactly zero; a finite vector with any other component
/// has a positive norm.
pub open spec fn all_zero(v: Seq<u32>) -> bool {
    forall|i: int| 0 <= i < v.len() ==> is_zero_bits(#[trigger] v[i])
}

/// The sign bit of a pattern: 1 for negative values.
pub open spec fn sign_bit(b: u32) -> u32 {
    b >> 31
}

/// The magnitude bits of a pattern: exponent and mantissa.
pub open spec fn magnitude(b: u32) -> u32 {
    b & 0x7fff_ffff
}

/// Numeric strict order of the finite values two bit patterns denote:
/// negatives before positives, `+0` and `-0` equal, and within one sign the
/// magnitude bits order the values (greater magnitude is further from zero).
pub open spec fn float_lt_bits(a: u32, b: u32) -> bool {
    if is_zero_bits(a) && is_zero_bits(b) {
        false
    } else if sign_bit(a) != sign_bit(b) {
        sign_bit(a) == 1
    } else if sign_bit(a) == 0 {
        magnitude(a) < magnitude(b)
    } else {
        magnitude(a) > magnitude(b)
    }
}

/// The ranking key of a score: complement negative patterns, set the sign
/// bit on non-negative ones. Unsigned order of keys then follows the numeric
/// order of the values.
pub open spec fn score_key(b: u32) -> u32 {
    if b >> 31 == 1 {
        !b
    } else {
        b ^ 0x8000_0000
    }
}

/// The key order agrees with the numeric order on finite patterns: strictly
/// greater values get strictly greater keys, and a strict key order implies
/// a strict value order except between the two zeroes, whose numeric tie the
/// key breaks as `-0` before `+0`. Equal keys only arise from equal patterns.
pub proof fn lemma_score_key_order(a: u32, b: u32)
    by (bit_vector)
    requires
        is_finite_bits(a),
        is_finite_bits(b),
    ensures
        float_lt_bits(a, b) ==> score_key(a) < score_key(b),
        score_key(a) < score_key(b) ==> float_lt_bits(a, b) || (is_zero_bits(a)
            && is_zero_bits(b)),
        score_key(a) == score_key(b) ==> a == b,
{
}

/// Whether one bit pattern is finite.
pub fn finite_bits(b: u32) -> (r: bool)
    ensures
        r == is_finite_bits(b),
{
    (b >> 23) & 0xff != 0xff
}

/// Whether one bit pattern is a signed zero.
pub fn zero_bits(b: u32) -> (r: bool)
    ensures
        r == is_zero_bits(b),
{
    b & 0x7fff_ffff == 0
}

/// The ranking key of one score pattern.
pub fn compute_score_key(b: u32) -> (k: u32)
    ensures
        k == score_key(b),
{
    if b >> 31 == 1 {
        !b
    } else {
        b ^ 0x8000_0000
    }
}

/// Whether every component of `v` is finite.
pub fn check_all_finite(v: &Vec<u32>) -> (r: bool)
    ensures
        r == all_finite(v@),
{
    let mut i: usize = 0;
    while i < v.len()
        invariant
            0 <= i <= v@.len(),
            forall|j: int| 0 <= j < i ==> is_finite_bits(#[trigger] v@[j]),
        decreases v@.len() - i,
    {
        if !finite_bits(v[i]) {
            return false;
        }
        i += 1;
    }
    true
}

/// Whether every component of `v` is a signed zero.
pub fn check_all_zero(v: &Vec<u32>) -> (r: bool)
    ensures
        r == all_zero(v@),
{
    let mut i: usize = 0;
    while i < v.len()
        invariant
            0 <= i <= v@.len(),
            forall|j: int| 0 <= j < i ==> is_zero_bits(#[trigger] v@[j]),
        decreases v@.len() - i,
    {
        if !zero_bits(v[i]) {
            return false;
        }
        i += 1;
    }
    true
}

} // verus!
