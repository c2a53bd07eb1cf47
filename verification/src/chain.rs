//! Decision structure of the continuous chain optimizer.
//!
//! The optimizer moves a chain of free joints bounded by two "phantom"
//! joints: virtual neighbors obtained by applying a symmetry to a real
//! joint.  Evaluating a cost or a force is continuous arithmetic and lives
//! outside this crate; what is decided here, exactly, is the structure of
//! that evaluation: which leg of each joint faces which neighbor, which
//! variant of the pairwise cost applies, which pairs the total cost sums,
//! and which pairs the repulsion force exempts.

use vstd::prelude::*;
use crate::symmetry::SymmetryElement;

verus! {

/// Which leg of a joint faces a neighbor.
#[derive(Clone, Copy, Debug, PartialEq, Eq, Structural)]
pub enum Leg {
    Incoming,
    Outgoing,
}

/// A boundary condition of the chain: a symmetry, the index of the real
/// joint it mirrors, and which leg of that joint the phantom presents.
#[derive(Clone, Copy, Debug, PartialEq, Eq, Structural)]
pub struct PhantomJoint {
    pub symmetry: SymmetryElement,
    pub index: usize,
    pub leg: Leg,
}

/// The two boundary conditions of a chain of `joint_count` joints: the
/// pre-phantom mirrors the first joint's incoming leg under the first
/// flipped symmetry of the enumeration (entry 1), and the post-phantom
/// mirrors the last joint's outgoing leg under the next flipped symmetry
/// (entry 3).
pub fn boundary_phantoms(joint_count: usize) -> (r: (PhantomJoint, PhantomJoint))
    requires
        joint_count >= 1,
    ensures
        r.0 == (PhantomJoint {
            symmetry: SymmetryElement { rotation: 0, flipped: true },
            index: 0,
            leg: Leg::Incoming,
        }),
        r.1 == (PhantomJoint {
            symmetry: SymmetryElement { rotation: 1, flipped: true },
            index: (joint_count - 1) as usize,
            leg: Leg::Outgoing,
        }),
{
    (
        PhantomJoint {
            symmetry: SymmetryElement { rotation: 0, flipped: true },
            index: 0,
            leg: Leg::Incoming,
        },
        PhantomJoint {
            symmetry: SymmetryElement { rotation: 1, flipped: true },
            index: joint_count - 1,
            leg: Leg::Outgoing,
        },
    )
}

/// Which variant of the pairwise cost applies to a pair of legs.
#[derive(Clone, Copy, Debug, PartialEq, Eq, Structural)]
pub enum CostOrientation {
    /// The two frames' forward axes are supposed to face the same way.
    Aligned,
    /// The two frames' forward axes are supposed to face opposite ways.
    Opposing,
}

/// The cost variant for a pair of legs: two legs of the same kind face away
/// from each other ("backs touching"), so the opposing variant applies;
/// legs of different kinds chain head-to-tail, so the aligned variant does.
pub open spec fn spec_cost_orientation(leg_0: Leg, leg_1: Leg) -> CostOrientation {
    if leg_0 == leg_1 {
        CostOrientation::Opposing
    } else {
        CostOrientation::Aligned
    }
}

/// Decide which variant of the pairwise cost measures the connection
/// between two legs.
pub fn cost_orientation(leg_0: Leg, leg_1: Leg) -> (r: CostOrientation)
    ensures
        r == spec_cost_orientation(leg_0, leg_1),
{
    match (leg_0, leg_1) {
        (Leg::Incoming, Leg::Incoming) => CostOrientation::Opposing,
        (Leg::Outgoing, Leg::Outgoing) => CostOrientation::Opposing,
        _ => CostOrientation::Aligned,
    }
}

/// Whether two joint indices are within `range` of each other.
pub open spec fn spec_within(a: usize, b: usize, range: usize) -> bool {
    -(range as int) <= a - b <= range as int
}

/// Whether two joint indices are within `range` of each other.
pub fn within(a: usize, b: usize, range: usize) -> (r: bool)
    ensures
        r == spec_within(a, b, range),
{
    if a >= b {
        a - b <= range
    } else {
        b - a <= range
    }
}

/// Whether the repulsion force exempts the pair of joint `i` and the copy
/// of joint `j` under symmetry `sym_i` of the enumeration: chain neighbors
/// in the untransformed branch, the two coinciding start joints under the
/// first flipped symmetry, and the two coinciding end joints under the
/// next upright symmetry.
pub open spec fn spec_repulsion_excluded(sym_i: int, i: int, j: int, joint_count: int) -> bool {
    ||| (sym_i == 0 && -1 <= i - j <= 1)
    ||| (sym_i == 1 && i == 0 && j == 0)
    ||| (sym_i == 2 && i == joint_count - 1 && j == joint_count - 1)
}

/// Decide whether the repulsion force exempts a pair.
pub fn repulsion_excluded(sym_i: usize, i: usize, j: usize, joint_count: usize) -> (r: bool)
    ensures
        r == spec_repulsion_excluded(sym_i as int, i as int, j as int, joint_count as int),
{
    let neighbors_in_same_branch = sym_i == 0 && within(i, j, 1);
    let neighbors_at_start = sym_i == 1 && i == 0 && j == 0;
    let neighbors_at_end = sym_i == 2 && joint_count >= 1 && i == joint_count - 1 && j
        == joint_count - 1;
    neighbors_in_same_branch || neighbors_at_start || neighbors_at_end
}

/// One endpoint of a costed connection: a real joint of the chain, or one
/// of the two phantom boundary joints.
#[derive(Clone, Copy, Debug, PartialEq, Eq, Structural)]
pub enum JointRef {
    PrePhantom,
    Chained(usize),
    PostPhantom,
}

/// One connection the total cost of a chain sums: two endpoints, each with
/// the leg it presents.
#[derive(Clone, Copy, Debug, PartialEq, Eq, Structural)]
pub struct CostEdge {
    pub first: JointRef,
    pub first_leg: Leg,
    pub second: JointRef,
    pub second_leg: Leg,
}

/// The connection joint `i` is costed against on its incoming side: its
/// predecessor's outgoing leg, or the pre-phantom at the start of the chain.
pub open spec fn spec_pre_edge(i: int, pre_leg: Leg) -> CostEdge {
    CostEdge {
        first: if i == 0 {
            JointRef::PrePhantom
        } else {
            JointRef::Chained((i - 1) as usize)
        },
        first_leg: if i == 0 {
            pre_leg
        } else {
            Leg::Outgoing
        },
        second: JointRef::Chained(i as usize),
        second_leg: Leg::Incoming,
    }
}

/// The connection joint `i` is costed against on its outgoing side: its
/// successor's incoming leg, or the post-phantom at the end of the chain.
pub open spec fn spec_post_edge(i: int, joint_count: int, post_leg: Leg) -> CostEdge {
    CostEdge {
        first: JointRef::Chained(i as usize),
        first_leg: Leg::Outgoing,
        second: if i + 1 < joint_count {
            JointRef::Chained((i + 1) as usize)
        } else {
            JointRef::PostPhantom
        },
        second_leg: if i + 1 < joint_count {
            Leg::Incoming
        } else {
            post_leg
        },
    }
}

/// The connections the total cost of a chain sums, in evaluation order: for
/// each joint, first the connection toward its predecessor (or the
/// pre-phantom), then the connection toward its successor (or the
/// post-phantom).  Interior connections appear twice, once from each side.
pub fn chain_cost_edges(joint_count: usize, pre_leg: Leg, post_leg: Leg) -> (r: Vec<CostEdge>)
    requires
        joint_count * 2 <= usize::MAX,
    ensures
        r@.len() == 2 * joint_count,
        forall|i: int|
            0 <= i < joint_count ==> #[trigger] r@[2 * i] == spec_pre_edge(i, pre_leg),
        forall|i: int|
            0 <= i < joint_count ==> #[trigger] r@[2 * i + 1] == spec_post_edge(
                i,
                joint_count as int,
                post_leg,
            ),
{
    let mut result: Vec<CostEdge> = Vec::new();
    let mut i: usize = 0;
    while i < joint_count
        invariant
            i <= joint_count,
            joint_count * 2 <= usize::MAX,
            result@.len() == 2 * i,
            forall|k: int| 0 <= k < i ==> #[trigger] result@[2 * k] == spec_pre_edge(k, pre_leg),
            forall|k: int|
                0 <= k < i ==> #[trigger] result@[2 * k + 1] == spec_post_edge(
                    k,
                    joint_count as int,
                    post_leg,
                ),
        decreases joint_count - i,
    {
        let pre_edge = if i == 0 {
            CostEdge {
                first: JointRef::PrePhantom,
                first_leg: pre_leg,
                second: JointRef::Chained(i),
                second_leg: Leg::Incoming,
            }
        } else {
            CostEdge {
                first: JointRef::Chained(i - 1),
                first_leg: Leg::Outgoing,
                second: JointRef::Chained(i),
                second_leg: Leg::Incoming,
            }
        };
        let post_edge = if i + 1 < joint_count {
            CostEdge {
                first: JointRef::Chained(i),
                first_leg: Leg::Outgoing,
                second: JointRef::Chained(i + 1),
                second_leg: Leg::Incoming,
            }
        } else {
            CostEdge {
                first: JointRef::Chained(i),
                first_leg: Leg::Outgoing,
                second: JointRef::PostPhantom,
                second_leg: post_leg,
            }
        };
        result.push(pre_edge);
        result.push(post_edge);
        i = i + 1;
    }
    result
}

} // verus!
