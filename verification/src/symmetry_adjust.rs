//! The two-parameter closure placement ("symmetry adjust") of a joint chain.
//!
//! A whole chain is placed relative to the symmetry axis by two scalars: a
//! radius (offset from the axis) and a radial angle (rotation about the
//! radial vector).  The geometric solve that produces candidate placements
//! and their costs is continuous arithmetic and lives outside this crate;
//! here the placement travels as raw `f64` bit patterns, and what is
//! verified is the selection between the two closed-form candidate
//! solutions, which is a pure comparison of their costs.

use vstd::prelude::*;
use crate::nan_order::{float_eq_bits, float_le, float_lt_bits, is_nan_bits, nan_le};

verus! {

/// Analog parameters for how a chain of joints is positioned in space with
/// symmetry.  Both fields are `f64` bit patterns.
#[derive(Clone, Copy, Debug, PartialEq, Eq, Structural)]
pub struct Vars {
    /// Bit pattern of the distance of the chain's origin from the symmetry axis.
    pub radius_bits: u64,

    /// Bit pattern of the rotation of the chain about the radial vector.
    pub radial_angle_bits: u64,
}

/// Whether the direct solve would keep the first of its two candidate
/// placements: exactly when the first cost compares `<=` as a double.
pub open spec fn keeps_first_candidate(cost_0_bits: u64, cost_1_bits: u64) -> bool {
    float_lt_bits(cost_0_bits, cost_1_bits) || float_eq_bits(cost_0_bits, cost_1_bits)
}

/// Select the cheaper of the two candidate placements of a direct closure
/// solve.  Mirrors the `f64` comparison exactly: when the first cost is NaN
/// the comparison fails and the second candidate is kept, whatever it is.
pub fn choose_cheaper(vars_0: Vars, cost_0_bits: u64, vars_1: Vars, cost_1_bits: u64) -> (r: (
    Vars,
    u64,
))
    ensures
        r == if keeps_first_candidate(cost_0_bits, cost_1_bits) {
            (vars_0, cost_0_bits)
        } else {
            (vars_1, cost_1_bits)
        },
        !is_nan_bits(cost_0_bits) && !is_nan_bits(cost_1_bits) ==> nan_le(r.1, cost_0_bits)
            && nan_le(r.1, cost_1_bits),
{
    if float_le(cost_0_bits, cost_1_bits) {
        (vars_0, cost_0_bits)
    } else {
        (vars_1, cost_1_bits)
    }
}

} // verus!
