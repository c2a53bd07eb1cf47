//! Thresholded assembly of the pairwise joint-fit cost.
//!
//! How well two joints fit together is measured by three terms: the squared
//! distance between their ends, an axis-misalignment term, and a periodic
//! locking-angle term.  Computing the terms is continuous arithmetic and
//! lives outside this crate; what is exact, and verified here, is the
//! short-circuit structure: the axis term is only read when the distance
//! cost is below a threshold and otherwise pinned to its clamp value, and
//! likewise the locking term behind the axis term.  All scalars travel as
//! `f64` bit patterns.

use vstd::prelude::*;
use crate::joint::TurnFraction;
use crate::nan_order::float_lt_bits;

verus! {

/// Bit pattern of 2.0, the value the axis cost is clamped to when the
/// distance cost reaches its threshold: the theoretical maximum of
/// `1 - dot(axis_0, axis_1)`.
pub const AXIS_CLAMP_BITS: u64 = 0x4000_0000_0000_0000;

/// Bit pattern of 1.0, the value the locking cost is clamped to when the
/// axis cost reaches its threshold: the maximum of the periodic penalty.
pub const LOCKING_CLAMP_BITS: u64 = 0x3FF0_0000_0000_0000;

/// Configurable parameters for determining when certain terms of the cost
/// function should be calculated.  Both fields are `f64` bit patterns.
#[derive(Clone, Copy, Debug, PartialEq, Eq, Structural)]
pub struct Thresholds {
    /// The minimum distance cost at which the axis cost is clamped rather
    /// than calculated.
    pub dist_for_axis_bits: u64,

    /// The minimum axis cost at which the locking cost is clamped rather
    /// than calculated.
    pub axis_for_locking_bits: u64,
}

/// Configurable parameters for measuring how well two joints fit together:
/// one weight per term, and the thresholds.  All weights are `f64` bit
/// patterns.
#[derive(Clone, Copy, Debug, PartialEq, Eq, Structural)]
pub struct CostParams {
    pub dist_weight_bits: u64,
    pub axis_weight_bits: u64,
    pub locking_weight_bits: u64,
    pub thresholds: Thresholds,
}

/// The three measures of how well two joints fit together, as `f64` bit
/// patterns.
#[derive(Clone, Copy, Debug, PartialEq, Eq, Structural)]
pub struct Costs {
    /// The squared euclidean distance between the ends of the two joints.
    pub dist_bits: u64,

    /// One minus the dot product of the joints' facing axes, or its clamp.
    pub axis_bits: u64,

    /// The periodic locking-angle penalty, or its clamp.
    pub locking_bits: u64,
}

/// How the three cost terms combine under the thresholds: the axis term is
/// read only when the distance cost compares strictly below its threshold
/// (as a double; a NaN distance clamps), and the locking term only when,
/// additionally, the axis term compares strictly below its own threshold.
pub open spec fn spec_costs_thresholded(
    thresholds: Thresholds,
    dist_bits: u64,
    axis_raw_bits: u64,
    locking_raw_bits: u64,
) -> Costs {
    if float_lt_bits(dist_bits, thresholds.dist_for_axis_bits) {
        if float_lt_bits(axis_raw_bits, thresholds.axis_for_locking_bits) {
            Costs { dist_bits, axis_bits: axis_raw_bits, locking_bits: locking_raw_bits }
        } else {
            Costs { dist_bits, axis_bits: axis_raw_bits, locking_bits: LOCKING_CLAMP_BITS }
        }
    } else {
        Costs { dist_bits, axis_bits: AXIS_CLAMP_BITS, locking_bits: LOCKING_CLAMP_BITS }
    }
}

/// Assemble the three cost terms under the thresholds.  The raw axis and
/// locking terms are whatever the continuous evaluation produced; whether
/// they are read or replaced by their clamps is decided here, exactly.
pub fn costs_thresholded(
    thresholds: &Thresholds,
    dist_bits: u64,
    axis_raw_bits: u64,
    locking_raw_bits: u64,
) -> (r: Costs)
    ensures
        r == spec_costs_thresholded(*thresholds, dist_bits, axis_raw_bits, locking_raw_bits),
{
    if crate::nan_order::float_lt(dist_bits, thresholds.dist_for_axis_bits) {
        if crate::nan_order::float_lt(axis_raw_bits, thresholds.axis_for_locking_bits) {
            Costs { dist_bits, axis_bits: axis_raw_bits, locking_bits: locking_raw_bits }
        } else {
            Costs { dist_bits, axis_bits: axis_raw_bits, locking_bits: LOCKING_CLAMP_BITS }
        }
    } else {
        Costs { dist_bits, axis_bits: AXIS_CLAMP_BITS, locking_bits: LOCKING_CLAMP_BITS }
    }
}

/// When the distance cost does not compare below its threshold, the axis
/// cost reads exactly the clamp value 2.0 — whatever the actual axis
/// misalignment was — and the locking cost reads exactly 1.0.
pub proof fn lemma_axis_threshold_clamp(
    thresholds: Thresholds,
    dist_bits: u64,
    axis_raw_bits: u64,
    locking_raw_bits: u64,
)
    requires
        !float_lt_bits(dist_bits, thresholds.dist_for_axis_bits),
    ensures
        spec_costs_thresholded(thresholds, dist_bits, axis_raw_bits, locking_raw_bits).axis_bits
            == AXIS_CLAMP_BITS,
        spec_costs_thresholded(thresholds, dist_bits, axis_raw_bits, locking_raw_bits).locking_bits
            == LOCKING_CLAMP_BITS,
{
}

/// When the distance cost is below its threshold but the axis cost does not
/// compare below its own, the locking cost reads exactly the clamp value
/// 1.0 — whatever the actual locking angle was — while the axis cost is
/// read as computed.
pub proof fn lemma_locking_threshold_clamp(
    thresholds: Thresholds,
    dist_bits: u64,
    axis_raw_bits: u64,
    locking_raw_bits: u64,
)
    requires
        float_lt_bits(dist_bits, thresholds.dist_for_axis_bits),
        !float_lt_bits(axis_raw_bits, thresholds.axis_for_locking_bits),
    ensures
        spec_costs_thresholded(thresholds, dist_bits, axis_raw_bits, locking_raw_bits).axis_bits
            == axis_raw_bits,
        spec_costs_thresholded(thresholds, dist_bits, axis_raw_bits, locking_raw_bits).locking_bits
            == LOCKING_CLAMP_BITS,
{
}

/// The distance term is passed through untouched in every case.
pub proof fn lemma_dist_term_untouched(
    thresholds: Thresholds,
    dist_bits: u64,
    axis_raw_bits: u64,
    locking_raw_bits: u64,
)
    ensures
        spec_costs_thresholded(thresholds, dist_bits, axis_raw_bits, locking_raw_bits).dist_bits
            == dist_bits,
{
}

/// Where on the periodic locking penalty an exact twist lands.  The penalty
/// `16 x² (1 - x)²` of the fractional part `x` of `twist · num_angles` has
/// roots exactly at integers (a whole number of discrete steps) and its
/// maximum of 1 exactly at half steps.
#[derive(Clone, Copy, Debug, PartialEq, Eq, Structural)]
pub enum LockingClass {
    /// A whole number of discrete steps: zero penalty, a valid angle.
    Zero,
    /// Exactly half way between discrete steps: the maximal penalty, 1.
    Maximum,
    /// Anywhere else: a penalty strictly between the two.
    Intermediate,
}

/// The residue of the twist measured in discrete steps: the numerator of
/// the fractional part of `num_angles · twist`, over `twist.denom`.
pub open spec fn spec_twist_steps_rem(num_angles: u32, twist: TurnFraction) -> int {
    ((num_angles as int) * (twist.num as int)) % (twist.denom as int)
}

/// Where the periodic locking penalty places an exact twist.
pub open spec fn spec_locking_class(num_angles: u32, twist: TurnFraction) -> LockingClass {
    let t = spec_twist_steps_rem(num_angles, twist);
    if t == 0 {
        LockingClass::Zero
    } else if 2 * t == twist.denom {
        LockingClass::Maximum
    } else {
        LockingClass::Intermediate
    }
}

/// Classify an exact twist against the periodic locking penalty: zero
/// penalty at whole discrete steps, maximal penalty at half steps.
pub fn locking_penalty_class(num_angles: u32, twist: TurnFraction) -> (r: LockingClass)
    requires
        1 <= num_angles <= 0x7FFF_FFFF,
        1 <= twist.denom,
        -0x7FFF_FFFF <= twist.num <= 0x7FFF_FFFF,
    ensures
        r == spec_locking_class(num_angles, twist),
{
    let n: u64 = num_angles as u64;
    let d: u64 = twist.denom as u64;
    let magnitude: u64 = if twist.num >= 0 {
        twist.num as u64
    } else {
        (-twist.num) as u64
    };
    proof {
        assert(magnitude * n <= 0x7FFF_FFFF * 0x7FFF_FFFF) by (nonlinear_arith)
            requires
                magnitude <= 0x7FFF_FFFF,
                n <= 0x7FFF_FFFF,
        ;
    }
    let rem: u64 = (magnitude * n) % d;
    let t: u64 = if twist.num >= 0 {
        rem
    } else {
        if rem == 0 {
            0
        } else {
            d - rem
        }
    };
    proof {
        let ni: int = num_angles as int;
        let di: int = twist.denom as int;
        let numi: int = twist.num as int;
        if twist.num < 0 {
            lemma_negated_mod(ni * (-numi), di);
            assert(ni * numi == -(ni * (-numi))) by (nonlinear_arith);
            assert(magnitude * n == ni * (-numi)) by (nonlinear_arith)
                requires
                    magnitude == -numi,
                    n == ni,
            ;
        } else {
            assert(magnitude * n == ni * numi) by (nonlinear_arith)
                requires
                    magnitude == numi,
                    n == ni,
            ;
        }
    }
    if t == 0 {
        LockingClass::Zero
    } else if twist.denom % 2 == 0 && t == (twist.denom / 2) as u64 {
        LockingClass::Maximum
    } else {
        LockingClass::Intermediate
    }
}

/// The residue of a negated value: zero stays zero, anything else reflects.
proof fn lemma_negated_mod(a: int, d: int)
    requires
        0 <= a,
        1 <= d,
    ensures
        a % d == 0 ==> (-a) % d == 0,
        a % d != 0 ==> (-a) % d == d - (a % d),
{
    let q: int = a / d;
    let r: int = a % d;
    vstd::arithmetic::div_mod::lemma_fundamental_div_mod(a, d);
    if r == 0 {
        assert(d * (-q) == -(d * q)) by (nonlinear_arith);
        assert(-a == d * (-q) + 0);
        vstd::arithmetic::div_mod::lemma_mod_multiples_vanish(-q, 0, d);
        vstd::arithmetic::div_mod::lemma_small_mod(0, d as nat);
    } else {
        assert(d * (-q - 1) == -(d * q) - d) by (nonlinear_arith);
        assert(-a == d * (-q - 1) + (d - r));
        vstd::arithmetic::div_mod::lemma_mod_multiples_vanish(-q - 1, d - r, d);
        vstd::arithmetic::div_mod::lemma_small_mod((d - r) as nat, d as nat);
    }
}

/// A twist of any whole number of discrete steps has zero locking penalty.
pub proof fn lemma_whole_steps_lock(num_angles: u32, steps: i64)
    requires
        1 <= num_angles,
        -0x7FFF_FFFF <= steps <= 0x7FFF_FFFF,
    ensures
        spec_locking_class(
            num_angles,
            TurnFraction { num: steps, denom: num_angles },
        ) == LockingClass::Zero,
{
    let ni: int = num_angles as int;
    vstd::arithmetic::div_mod::lemma_mod_multiples_vanish(steps as int, 0, ni);
    vstd::arithmetic::div_mod::lemma_small_mod(0, num_angles as nat);
    assert(ni * (steps as int) == ni * (steps as int) + 0);
}

/// A twist exactly half way between discrete steps has the maximal locking
/// penalty.
pub proof fn lemma_half_steps_maximal(num_angles: u32, steps: i64)
    requires
        1 <= num_angles <= 0x7FFF_FFFF,
        0 <= steps <= 0x3FFF_FFFF,
    ensures
        spec_locking_class(
            num_angles,
            TurnFraction { num: (2 * steps + 1) as i64, denom: (num_angles * 2) as u32 },
        ) == LockingClass::Maximum,
{
    let ni: int = num_angles as int;
    let d: int = 2 * ni;
    let num: int = 2 * (steps as int) + 1;
    assert(ni * num == d * (steps as int) + ni) by (nonlinear_arith)
        requires
            num == 2 * (steps as int) + 1,
            d == 2 * ni,
    ;
    vstd::arithmetic::div_mod::lemma_mod_multiples_vanish(steps as int, ni, d);
    vstd::arithmetic::div_mod::lemma_small_mod(num_angles as nat, (2 * num_angles) as nat);
}

/// The locking class is periodic in whole turns: a full revolution of the
/// twist changes nothing.
pub proof fn lemma_locking_class_full_turn(num_angles: u32, twist: TurnFraction)
    requires
        1 <= twist.denom,
        twist.num + twist.denom <= i64::MAX,
    ensures
        spec_locking_class(
            num_angles,
            TurnFraction { num: (twist.num + twist.denom) as i64, denom: twist.denom },
        ) == spec_locking_class(num_angles, twist),
{
    let ni: int = num_angles as int;
    let di: int = twist.denom as int;
    let shifted: int = (twist.num + twist.denom) as i64 as int;
    assert(ni * shifted == di * ni + ni * (twist.num as int)) by (nonlinear_arith)
        requires
            shifted == (twist.num as int) + di,
    ;
    vstd::arithmetic::div_mod::lemma_mod_multiples_vanish(ni, ni * (twist.num as int), di);
}

} // verus!
