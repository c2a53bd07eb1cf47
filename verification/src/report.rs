//! Search result records and the bookkeeping over them.
//!
//! A search produces ranked records of candidate knots; the records are
//! plain data exchanged with the serialization layer outside this crate.
//! Scalars that are `f64` values travel as bit patterns.  Verified here:
//! filling a partial record set with defaults, deciding whether a record
//! already carries its solved placement, and the parity histogram of a
//! record list.

use vstd::prelude::*;
use crate::cost::{CostParams, Costs};
use crate::joint::JointSpec;
use crate::symmetry_adjust::Vars;

verus! {

/// Whether each half-chain ("horseshoe") of the model carries an even or
/// odd number of joints: odd chains get an extra middle joint.
#[derive(Clone, Copy, Debug, PartialEq, Eq, Structural)]
pub enum JointsParity {
    /// Each horseshoe has twice the listed number of joints.
    Even,
    /// Each horseshoe has twice the listed number of joints, plus one.
    Odd,
}

/// One ranked candidate: its discrete angles, and, when already computed,
/// its final locking angle, its solved placement and its costs.
#[derive(Clone, Debug)]
pub struct KnotReport {
    pub angles: Vec<i32>,
    pub final_angle_bits: Option<u64>,
    pub angle_parity: i32,
    pub symmetry_adjust: Option<Vars>,
    pub costs: Option<Costs>,
    pub total_cost_bits: u64,
}

/// A candidate record with every lazily computed field present.
#[derive(Clone, Debug)]
pub struct CompleteKnotReport {
    pub angles: Vec<i32>,
    pub final_angle_bits: u64,
    pub symmetry_adjust: Vars,
    pub costs: Costs,
}

/// A ranked list of candidate records, with the run's configuration; the
/// configuration fields are optional in serialized input.
#[derive(Clone, Debug)]
pub struct KnotReports {
    pub joint_spec: Option<JointSpec>,
    pub num_angles: Option<u32>,
    pub symmetry_count: u32,
    pub symmetry_skip: u32,
    pub cost_params: Option<CostParams>,
    pub knots: Vec<KnotReport>,
    pub parity: JointsParity,
}

/// A ranked list of candidate records with the configuration made total.
#[derive(Clone, Debug)]
pub struct CompleteKnotReports {
    pub joint_spec: JointSpec,
    pub num_angles: u16,
    pub symmetry_count: u32,
    pub symmetry_skip: u32,
    pub cost_params: CostParams,
    pub knots: Vec<KnotReport>,
    pub parity: JointsParity,
}

/// Make a report list's configuration total, filling each absent field with
/// the given default.
pub fn complete_reports(
    reports: KnotReports,
    default_spec: JointSpec,
    default_num_angles: u32,
    default_cost_params: CostParams,
) -> (r: CompleteKnotReports)
    requires
        (reports.num_angles matches Some(n) ==> n <= 0xFFFF),
        default_num_angles <= 0xFFFF,
    ensures
        r.joint_spec == reports.joint_spec.unwrap_or(default_spec),
        r.num_angles == reports.num_angles.unwrap_or(default_num_angles),
        r.symmetry_count == reports.symmetry_count,
        r.symmetry_skip == reports.symmetry_skip,
        r.cost_params == reports.cost_params.unwrap_or(default_cost_params),
        r.knots == reports.knots,
        r.parity == reports.parity,
{
    let joint_spec = match reports.joint_spec {
        Some(spec) => spec,
        None => default_spec,
    };
    let num_angles: u32 = match reports.num_angles {
        Some(n) => n,
        None => default_num_angles,
    };
    let cost_params = match reports.cost_params {
        Some(params) => params,
        None => default_cost_params,
    };
    CompleteKnotReports {
        joint_spec,
        num_angles: num_angles as u16,
        symmetry_count: reports.symmetry_count,
        symmetry_skip: reports.symmetry_skip,
        cost_params,
        knots: reports.knots,
        parity: reports.parity,
    }
}

/// Convert one ranked candidate into its report record: the chosen angles
/// as signed integers, the solved placement, and the cost.
fn report_from_knot(knot: crate::search::Knot) -> (r: KnotReport)
    ensures
        r.angles@.len() == knot.angles@.len(),
        forall|j: int| 0 <= j < knot.angles@.len() ==> r.angles@[j] == knot.angles@[j] as i32,
        r.final_angle_bits is None,
        r.angle_parity == 0,
        r.symmetry_adjust == Some(knot.symmetry_adjust),
        r.costs is None,
        r.total_cost_bits == knot.cost_bits,
{
    let mut angles: Vec<i32> = Vec::new();
    let mut j: usize = 0;
    while j < knot.angles.len()
        invariant
            j <= knot.angles@.len(),
            angles@.len() == j,
            forall|i: int| 0 <= i < j ==> angles@[i] == knot.angles@[i] as i32,
        decreases knot.angles@.len() - j,
    {
        angles.push(knot.angles[j] as i32);
        j = j + 1;
    }
    KnotReport {
        angles,
        final_angle_bits: None,
        angle_parity: 0,
        symmetry_adjust: Some(knot.symmetry_adjust),
        costs: None,
        total_cost_bits: knot.cost_bits,
    }
}

/// Assemble the ranked outcome of a search run into its report list: one
/// record per kept candidate, in rank order, under the run's configuration.
pub fn assemble_reports(
    knots: Vec<crate::search::Knot>,
    joint_spec: JointSpec,
    num_angles: u32,
    symmetry_count: u32,
    symmetry_skip: u32,
    cost_params: CostParams,
    parity: JointsParity,
) -> (r: KnotReports)
    ensures
        r.joint_spec == Some(joint_spec),
        r.num_angles == Some(num_angles),
        r.symmetry_count == symmetry_count,
        r.symmetry_skip == symmetry_skip,
        r.cost_params == Some(cost_params),
        r.parity == parity,
        r.knots@.len() == knots@.len(),
        forall|k: int|
            0 <= k < knots@.len() ==> {
                let rec = #[trigger] r.knots@[k];
                &&& rec.angles@.len() == knots@[k].angles@.len()
                &&& (forall|j: int|
                    0 <= j < knots@[k].angles@.len() ==> rec.angles@[j] == knots@[k].angles@[j]
                        as i32)
                &&& rec.symmetry_adjust == Some(knots@[k].symmetry_adjust)
                &&& rec.total_cost_bits == knots@[k].cost_bits
                &&& rec.final_angle_bits is None
                &&& rec.costs is None
                &&& rec.angle_parity == 0
            },
{
    let ghost orig = knots@;
    let mut knots = knots;
    let mut records: Vec<KnotReport> = Vec::new();
    while knots.len() > 0
        invariant
            records@.len() + knots@.len() == orig.len(),
            knots@ =~= orig.skip(records@.len() as int),
            forall|k: int|
                0 <= k < records@.len() ==> {
                    let rec = #[trigger] records@[k];
                    &&& rec.angles@.len() == orig[k].angles@.len()
                    &&& (forall|j: int|
                        0 <= j < orig[k].angles@.len() ==> rec.angles@[j] == orig[k].angles@[j]
                            as i32)
                    &&& rec.symmetry_adjust == Some(orig[k].symmetry_adjust)
                    &&& rec.total_cost_bits == orig[k].cost_bits
                    &&& rec.final_angle_bits is None
                    &&& rec.costs is None
                    &&& rec.angle_parity == 0
                },
        decreases knots@.len(),
    {
        let ghost i = records@.len() as int;
        let knot = knots.remove(0);
        proof {
            assert(knot == orig[i]);
            assert(orig.skip(i).skip(1) =~= orig.skip(i + 1));
        }
        let record = report_from_knot(knot);
        records.push(record);
    }
    KnotReports {
        joint_spec: Some(joint_spec),
        num_angles: Some(num_angles),
        symmetry_count,
        symmetry_skip,
        cost_params: Some(cost_params),
        knots: records,
        parity,
    }
}

/// Whether a record already carries everything a complete record needs.
pub open spec fn spec_fully_cached(report: KnotReport) -> bool {
    report.final_angle_bits is Some && report.symmetry_adjust is Some && report.costs is Some
}

/// Complete a record from its own cached fields, if they are all present;
/// otherwise hand the record back unchanged, for the caller to re-solve.
pub fn cached_completion(report: KnotReport) -> (r: Result<CompleteKnotReport, KnotReport>)
    ensures
        r is Ok <==> spec_fully_cached(report),
        r matches Ok(complete) ==> {
            &&& complete.angles == report.angles
            &&& Some(complete.final_angle_bits) == report.final_angle_bits
            &&& Some(complete.symmetry_adjust) == report.symmetry_adjust
            &&& Some(complete.costs) == report.costs
        },
        r matches Err(back) ==> back == report,
{
    match (report.final_angle_bits, report.symmetry_adjust, report.costs) {
        (Some(final_angle_bits), Some(symmetry_adjust), Some(costs)) => Ok(
            CompleteKnotReport { angles: report.angles, final_angle_bits, symmetry_adjust, costs },
        ),
        (final_angle_bits, symmetry_adjust, costs) => Err(
            KnotReport {
                angles: report.angles,
                final_angle_bits,
                angle_parity: report.angle_parity,
                symmetry_adjust,
                costs,
                total_cost_bits: report.total_cost_bits,
            },
        ),
    }
}

/// How many records of a sequence carry the given angle parity.
pub open spec fn spec_count_parity(s: Seq<KnotReport>, parity: int) -> int
    decreases s.len(),
{
    if s.len() == 0 {
        0
    } else {
        spec_count_parity(s.drop_last(), parity) + if s.last().angle_parity == parity {
            1int
        } else {
            0int
        }
    }
}

/// A parity count never exceeds the number of records.
proof fn lemma_count_parity_bound(s: Seq<KnotReport>, parity: int)
    ensures
        0 <= spec_count_parity(s, parity) <= s.len(),
    decreases s.len(),
{
    if s.len() > 0 {
        lemma_count_parity_bound(s.drop_last(), parity);
    }
}

/// Count the records that carry the given angle parity.
pub fn count_parity(knots: &Vec<KnotReport>, parity: i32) -> (r: u32)
    requires
        knots@.len() <= 0xFFFF_FFFF,
    ensures
        r == spec_count_parity(knots@, parity as int),
{
    let mut count: u32 = 0;
    let mut i: usize = 0;
    while i < knots.len()
        invariant
            i <= knots@.len(),
            knots@.len() <= 0xFFFF_FFFF,
            count == spec_count_parity(knots@.take(i as int), parity as int),
        decreases knots@.len() - i,
    {
        proof {
            lemma_count_parity_bound(knots@.take(i as int), parity as int);
            assert(knots@.take(i + 1).drop_last() =~= knots@.take(i as int));
            assert(knots@.take(i + 1).last() == knots@[i as int]);
        }
        if knots[i].angle_parity == parity {
            count = count + 1;
        }
        i = i + 1;
    }
    proof {
        assert(knots@.take(knots@.len() as int) =~= knots@);
    }
    count
}

/// The number of distinct angle parities a record can carry.
pub const PARITY_CLASSES: usize = 16;

/// The parity histogram of a record list: entry `p` counts the records
/// whose angle parity is `p`.
pub fn parity_counter(knots: &Vec<KnotReport>) -> (r: Vec<u32>)
    requires
        knots@.len() <= 0xFFFF_FFFF,
    ensures
        r@.len() == PARITY_CLASSES,
        forall|p: int| 0 <= p < PARITY_CLASSES ==> r@[p] == spec_count_parity(knots@, p),
{
    let mut result: Vec<u32> = Vec::new();
    let mut p: usize = 0;
    while p < PARITY_CLASSES
        invariant
            p <= PARITY_CLASSES,
            knots@.len() <= 0xFFFF_FFFF,
            result@.len() == p,
            forall|q: int| 0 <= q < p ==> result@[q] == spec_count_parity(knots@, q),
        decreases PARITY_CLASSES - p,
    {
        let count = count_parity(knots, p as i32);
        result.push(count);
        p = p + 1;
    }
    result
}

} // verus!
