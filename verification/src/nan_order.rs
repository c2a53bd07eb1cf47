//! A total order on `f64` bit patterns that treats NaN as the greatest value.
//!
//! Search results are ranked by a cost that can degenerate to NaN, so sorting
//! needs an order in which NaN compares equal to itself and greater than
//! everything else.  This crate never computes with floating-point values;
//! costs travel through it as raw IEEE-754 double bit patterns (`u64`, as
//! produced by `f64::to_bits`), and the comparisons below decode those
//! patterns directly.  On non-NaN inputs they agree with the partial order of
//! `f64` itself: both zeros compare equal, negative values compare below
//! positive ones, and larger magnitudes of negative numbers compare lower.

use vstd::prelude::*;

verus! {

/// The sign bit of an IEEE-754 double bit pattern.
pub open spec fn sign_bit(bits: u64) -> bool {
    bits >= 0x8000_0000_0000_0000
}

/// The low 63 bits: exponent and fraction, i.e. the value's magnitude encoding.
pub open spec fn magnitude(bits: u64) -> int {
    (bits as int) % 0x8000_0000_0000_0000
}

/// The 11-bit biased exponent field.
pub open spec fn exponent_field(bits: u64) -> int {
    magnitude(bits) / 0x10_0000_0000_0000
}

/// The 52-bit fraction field.
pub open spec fn fraction_field(bits: u64) -> int {
    magnitude(bits) % 0x10_0000_0000_0000
}

/// Whether the bit pattern encodes a NaN: exponent all ones, fraction nonzero.
pub open spec fn is_nan_bits(bits: u64) -> bool {
    exponent_field(bits) == 0x7FF && fraction_field(bits) != 0
}

/// A signed key whose integer order coincides with the `f64` order on all
/// non-NaN patterns.  Both zeros map to key 0; for finite and infinite values
/// the magnitude encoding is itself monotone in the represented value.
pub open spec fn order_key(bits: u64) -> int {
    if sign_bit(bits) {
        -magnitude(bits)
    } else {
        magnitude(bits)
    }
}

/// What `a == b` means on doubles, decoded from bits: false on any NaN,
/// otherwise equality of order keys (so `-0.0 == 0.0`).
pub open spec fn float_eq_bits(a: u64, b: u64) -> bool {
    !is_nan_bits(a) && !is_nan_bits(b) && order_key(a) == order_key(b)
}

/// What `a < b` means on doubles, decoded from bits: false on any NaN.
pub open spec fn float_lt_bits(a: u64, b: u64) -> bool {
    !is_nan_bits(a) && !is_nan_bits(b) && order_key(a) < order_key(b)
}

/// The NaN-greatest total order: NaN sorts above everything and equals itself.
pub open spec fn nan_le(a: u64, b: u64) -> bool {
    if is_nan_bits(a) {
        is_nan_bits(b)
    } else {
        is_nan_bits(b) || order_key(a) <= order_key(b)
    }
}

/// Equality under the NaN-greatest order: two NaNs, or equal order keys.
pub open spec fn nan_eq(a: u64, b: u64) -> bool {
    (is_nan_bits(a) && is_nan_bits(b)) || float_eq_bits(a, b)
}

/// Whether a double bit pattern encodes a NaN.
pub fn is_nan(bits: u64) -> (r: bool)
    ensures
        r == is_nan_bits(bits),
{
    let mag: u64 = bits % 0x8000_0000_0000_0000;
    mag / 0x10_0000_0000_0000 == 0x7FF && mag % 0x10_0000_0000_0000 != 0
}

/// Strict `<` on double bit patterns, exactly as `f64` compares: false
/// whenever either operand is NaN.
pub fn float_lt(a: u64, b: u64) -> (r: bool)
    ensures
        r == float_lt_bits(a, b),
{
    if is_nan(a) || is_nan(b) {
        false
    } else {
        let mag_a: u64 = a % 0x8000_0000_0000_0000;
        let mag_b: u64 = b % 0x8000_0000_0000_0000;
        let sign_a = a >= 0x8000_0000_0000_0000;
        let sign_b = b >= 0x8000_0000_0000_0000;
        if sign_a && sign_b {
            mag_b < mag_a
        } else if !sign_a && !sign_b {
            mag_a < mag_b
        } else if sign_a {
            // negative < nonnegative, unless both are zeros
            mag_a != 0 || mag_b != 0
        } else {
            false
        }
    }
}

/// Non-strict `<=` on double bit patterns, exactly as `f64` compares: false
/// whenever either operand is NaN.
pub fn float_le(a: u64, b: u64) -> (r: bool)
    ensures
        r == (float_lt_bits(a, b) || float_eq_bits(a, b)),
{
    if is_nan(a) || is_nan(b) {
        false
    } else {
        !float_lt(b, a)
    }
}

/// `==` on double bit patterns, exactly as `f64` compares: false on NaN,
/// true on `-0.0` versus `0.0`.
pub fn float_eq(a: u64, b: u64) -> (r: bool)
    ensures
        r == float_eq_bits(a, b),
{
    if is_nan(a) || is_nan(b) {
        false
    } else {
        !float_lt(a, b) && !float_lt(b, a)
    }
}

/// `<=` in the NaN-greatest total order used for ranking costs.
pub fn nan_greatest_le(a: u64, b: u64) -> (r: bool)
    ensures
        r == nan_le(a, b),
{
    if is_nan(a) {
        is_nan(b)
    } else if is_nan(b) {
        true
    } else {
        float_le(a, b)
    }
}

/// Replace a running minimum when the new value compares strictly below
/// it, exactly as `<` compares doubles: a NaN never replaces anything, and
/// a NaN minimum never yields.
pub fn update_min(accum: u64, new: u64) -> (r: u64)
    ensures
        r == if float_lt_bits(new, accum) {
            new
        } else {
            accum
        },
{
    if float_lt(new, accum) {
        new
    } else {
        accum
    }
}

/// Replace a running maximum when the new value compares strictly above it.
pub fn update_max(accum: u64, new: u64) -> (r: u64)
    ensures
        r == if float_lt_bits(accum, new) {
            new
        } else {
            accum
        },
{
    if float_lt(accum, new) {
        new
    } else {
        accum
    }
}

/// The NaN-greatest order is total: any two cost patterns compare.
pub proof fn lemma_nan_le_total(a: u64, b: u64)
    ensures
        nan_le(a, b) || nan_le(b, a),
{
}

/// The NaN-greatest order is transitive.
pub proof fn lemma_nan_le_trans(a: u64, b: u64, c: u64)
    requires
        nan_le(a, b),
        nan_le(b, c),
    ensures
        nan_le(a, c),
{
}

/// The NaN-greatest order is antisymmetric up to `nan_eq`: two patterns that
/// compare both ways are equal costs (two NaNs, or the same numeric value).
pub proof fn lemma_nan_le_antisymmetric(a: u64, b: u64)
    requires
        nan_le(a, b),
        nan_le(b, a),
    ensures
        nan_eq(a, b),
{
}

/// A cost value under the NaN-greatest total order, ready for sorting.
pub struct NanGreatest(pub u64);

impl PartialEq for NanGreatest {
    fn eq(&self, other: &NanGreatest) -> (r: bool) {
        (is_nan(self.0) && is_nan(other.0)) || float_eq(self.0, other.0)
    }
}

impl vstd::std_specs::cmp::PartialEqSpecImpl for NanGreatest {
    open spec fn obeys_eq_spec() -> bool {
        true
    }

    open spec fn eq_spec(&self, other: &NanGreatest) -> bool {
        nan_eq(self.0, other.0)
    }
}

} // verus!
