//! Joint geometry parameters and discrete joint placement.
//!
//! A joint is a rigid segment with an "in" and an "out" connection frame,
//! described by four scalar parameters.  The scalars are `f64` values; this
//! crate carries them as bit patterns and never computes with them, while
//! the rigid transforms derived from them (the joint's anchor frames) are
//! continuous geometry and live outside.  What is exact here is the
//! placement angle of each joint in a discrete model: always a whole number
//! of steps of a fraction of a full turn, carried as that fraction.

use vstd::prelude::*;
use crate::report::JointsParity;

verus! {

/// The geometric parameters of one joint: distances from the "in" point to
/// the midpoint and from the midpoint to the "out" point, the bend angle
/// between the legs, and the cylinder radius.  All four are `f64` bit
/// patterns, carried untouched.
#[derive(Clone, Copy, Debug, PartialEq, Eq, Structural)]
pub struct JointSpec {
    pub dist_in_bits: u64,
    pub dist_out_bits: u64,
    pub bend_angle_bits: u64,
    pub radius_bits: u64,
}

impl JointSpec {
    /// The distance from the "in" point of a joint to its midpoint.
    pub open spec fn spec_dist_in(&self) -> u64 {
        self.dist_in_bits
    }

    /// The distance from the midpoint of a joint to its "out" point.
    pub open spec fn spec_dist_out(&self) -> u64 {
        self.dist_out_bits
    }

    /// The angle between the "in", "mid" and "out" points of the joint.
    pub open spec fn spec_bend_angle(&self) -> u64 {
        self.bend_angle_bits
    }

    /// The radius of the cylinders of the joint.
    pub open spec fn spec_radius(&self) -> u64 {
        self.radius_bits
    }

    /// Bundle the four parameters of a joint.
    pub fn new(dist_in_bits: u64, dist_out_bits: u64, bend_angle_bits: u64, radius_bits: u64) -> (r:
        JointSpec)
        ensures
            r.spec_dist_in() == dist_in_bits,
            r.spec_dist_out() == dist_out_bits,
            r.spec_bend_angle() == bend_angle_bits,
            r.spec_radius() == radius_bits,
    {
        JointSpec { dist_in_bits, dist_out_bits, bend_angle_bits, radius_bits }
    }

    /// The distance from the "in" point of a joint to its midpoint.
    pub fn dist_in(&self) -> (r: u64)
        ensures
            r == self.spec_dist_in(),
    {
        self.dist_in_bits
    }

    /// The distance from the midpoint of a joint to its "out" point.
    pub fn dist_out(&self) -> (r: u64)
        ensures
            r == self.spec_dist_out(),
    {
        self.dist_out_bits
    }

    /// The angle between the "in", "mid" and "out" points of the joint.
    pub fn bend_angle(&self) -> (r: u64)
        ensures
            r == self.spec_bend_angle(),
    {
        self.bend_angle_bits
    }

    /// The radius of the cylinders of the joint.
    pub fn radius(&self) -> (r: u64)
        ensures
            r == self.spec_radius(),
    {
        self.radius_bits
    }
}

/// An exact angle: `num / denom` of a full turn (`2π · num / denom` in
/// radians).  Discrete placement angles are always such fractions.
#[derive(Clone, Copy, Debug, PartialEq, Eq, Structural)]
pub struct TurnFraction {
    pub num: i64,
    pub denom: u32,
}

/// A specification of how to place one joint: its geometry and its rotation
/// about the incoming axis.
#[derive(Clone, Copy, Debug, PartialEq, Eq, Structural)]
pub struct RelativeJoint {
    /// The geometry of the joint being placed.
    pub spec: JointSpec,
    /// The rotation of the joint about its "in" axis, as an exact fraction
    /// of a full turn.
    pub angle: TurnFraction,
}

/// The placement angle of joint `k` in a plain discrete model: `angles[k]`
/// steps of `1 / num_angles` of a turn.
pub open spec fn spec_discrete_angle(num_angles: u32, angle: i32) -> TurnFraction {
    TurnFraction { num: angle as i64, denom: num_angles }
}

/// The placement angle of joint `k` in a symmetric discrete model: the
/// first joint of an even chain is attached to a copy of itself with the
/// same rotation applied, so it turns by half its step.
pub open spec fn spec_discrete_symmetric_angle(
    num_angles: u32,
    parity: JointsParity,
    angle: i32,
    k: int,
) -> TurnFraction {
    if parity == JointsParity::Even && k == 0 {
        TurnFraction { num: angle as i64, denom: (num_angles * 2) as u32 }
    } else {
        TurnFraction { num: angle as i64, denom: num_angles }
    }
}

/// Produce a sequence of joint placements where each joint's rotation is an
/// integer multiple of some fraction of a revolution (with the denominator
/// given by `num_angles`).
pub fn discrete_angles(spec: JointSpec, num_angles: u32, angles: &Vec<i32>) -> (r: Vec<RelativeJoint>)
    requires
        1 <= num_angles,
    ensures
        r@.len() == angles@.len(),
        forall|k: int|
            0 <= k < angles@.len() ==> #[trigger] r@[k] == (RelativeJoint {
                spec: spec,
                angle: spec_discrete_angle(num_angles, angles@[k]),
            }),
{
    let mut result: Vec<RelativeJoint> = Vec::new();
    let mut k: usize = 0;
    while k < angles.len()
        invariant
            k <= angles@.len(),
            result@.len() == k,
            forall|i: int|
                0 <= i < k ==> #[trigger] result@[i] == (RelativeJoint {
                    spec: spec,
                    angle: spec_discrete_angle(num_angles, angles@[i]),
                }),
        decreases angles@.len() - k,
    {
        result.push(
            RelativeJoint { spec: spec, angle: TurnFraction { num: angles[k] as i64, denom: num_angles } },
        );
        k = k + 1;
    }
    result
}

/// Produce a sequence of joint placements with discrete rotations, assuming
/// that the first joint will be attached to a copy of itself with the same
/// rotation applied: in an even chain the first joint turns by half a step.
pub fn discrete_symmetric_angles(
    spec: JointSpec,
    num_angles: u32,
    parity: JointsParity,
    angles: &Vec<i32>,
) -> (r: Vec<RelativeJoint>)
    requires
        1 <= num_angles <= 0x7FFF_FFFF,
    ensures
        r@.len() == angles@.len(),
        forall|k: int|
            0 <= k < angles@.len() ==> #[trigger] r@[k] == (RelativeJoint {
                spec: spec,
                angle: spec_discrete_symmetric_angle(num_angles, parity, angles@[k], k),
            }),
{
    let mut result: Vec<RelativeJoint> = Vec::new();
    let mut self_attached: bool = match parity {
        JointsParity::Even => true,
        JointsParity::Odd => false,
    };
    let mut k: usize = 0;
    while k < angles.len()
        invariant
            1 <= num_angles <= 0x7FFF_FFFF,
            k <= angles@.len(),
            result@.len() == k,
            self_attached == (parity == JointsParity::Even && k == 0),
            forall|i: int|
                0 <= i < k ==> #[trigger] result@[i] == (RelativeJoint {
                    spec: spec,
                    angle: spec_discrete_symmetric_angle(num_angles, parity, angles@[i], i),
                }),
        decreases angles@.len() - k,
    {
        if self_attached {
            self_attached = false;
            result.push(
                RelativeJoint {
                    spec: spec,
                    angle: TurnFraction { num: angles[k] as i64, denom: num_angles * 2 },
                },
            );
        } else {
            result.push(
                RelativeJoint {
                    spec: spec,
                    angle: TurnFraction { num: angles[k] as i64, denom: num_angles },
                },
            );
        }
        k = k + 1;
    }
    result
}

} // verus!
