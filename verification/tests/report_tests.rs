use knot::chain::{
    boundary_phantoms, chain_cost_edges, cost_orientation, repulsion_excluded, within, CostEdge,
    CostOrientation, JointRef, Leg,
};
use knot::symmetry::{symmetries, SymmetryElement};
use knot::cost::{CostParams, Costs, Thresholds};
use knot::joint::JointSpec;
use knot::report::{
    cached_completion, complete_reports, parity_counter, JointsParity, KnotReport, KnotReports,
};
use knot::symmetry_adjust::Vars;

#[test]
fn it_works() {
    assert_eq!(2 + 2, 4);
}

fn report(parity: i32) -> KnotReport {
    KnotReport {
        angles: vec![0, 1, 2],
        final_angle_bits: None,
        angle_parity: parity,
        symmetry_adjust: None,
        costs: None,
        total_cost_bits: 0.0f64.to_bits(),
    }
}

fn default_cost_params() -> CostParams {
    CostParams {
        dist_weight_bits: 5.0f64.to_bits(),
        axis_weight_bits: 1.0f64.to_bits(),
        locking_weight_bits: 1.0f64.to_bits(),
        thresholds: Thresholds {
            dist_for_axis_bits: 4.0f64.to_bits(),
            axis_for_locking_bits: 0.2f64.to_bits(),
        },
    }
}

#[test]
fn parity_histogram() {
    let knots = vec![report(0), report(3), report(3), report(15), report(3)];
    let counts = parity_counter(&knots);
    assert_eq!(counts.len(), 16);
    assert_eq!(counts[0], 1);
    assert_eq!(counts[3], 3);
    assert_eq!(counts[15], 1);
    for p in [1, 2, 4, 5, 6, 7, 8, 9, 10, 11, 12, 13, 14] {
        assert_eq!(counts[p], 0);
    }
}

#[test]
fn defaults_fill_missing_configuration() {
    let default_spec = JointSpec::new(
        1.0f64.to_bits(),
        1.0f64.to_bits(),
        0.5f64.to_bits(),
        1.25f64.to_bits(),
    );
    let reports = KnotReports {
        joint_spec: None,
        num_angles: None,
        symmetry_count: 3,
        symmetry_skip: 2,
        cost_params: None,
        knots: vec![report(1)],
        parity: JointsParity::Even,
    };
    let complete = complete_reports(reports, default_spec, 16, default_cost_params());
    assert_eq!(complete.joint_spec, default_spec);
    assert_eq!(complete.num_angles, 16);
    assert_eq!(complete.symmetry_count, 3);
    assert_eq!(complete.symmetry_skip, 2);
    assert_eq!(complete.cost_params, default_cost_params());
    assert_eq!(complete.knots.len(), 1);

    let other_spec = JointSpec::new(
        2.0f64.to_bits(),
        2.0f64.to_bits(),
        0.1f64.to_bits(),
        0.5f64.to_bits(),
    );
    let reports = KnotReports {
        joint_spec: Some(other_spec),
        num_angles: Some(32),
        symmetry_count: 4,
        symmetry_skip: 1,
        cost_params: Some(default_cost_params()),
        knots: vec![],
        parity: JointsParity::Odd,
    };
    let complete = complete_reports(reports, default_spec, 16, default_cost_params());
    assert_eq!(complete.joint_spec, other_spec);
    assert_eq!(complete.num_angles, 32);
}

#[test]
fn ranked_candidates_assemble_into_records() {
    let spec = JointSpec::new(
        1.0f64.to_bits(),
        1.0f64.to_bits(),
        0.5f64.to_bits(),
        1.25f64.to_bits(),
    );
    let vars = Vars { radius_bits: 9.0f64.to_bits(), radial_angle_bits: 0.25f64.to_bits() };
    let knots = vec![knot::search::Knot {
        angles: vec![0, 7, 15, 1, 2],
        symmetry_adjust: vars,
        cost_bits: 1.5f64.to_bits(),
        good_candidate: true,
    }];
    let reports = knot::report::assemble_reports(
        knots,
        spec,
        16,
        3,
        2,
        default_cost_params(),
        JointsParity::Even,
    );
    assert_eq!(reports.joint_spec, Some(spec));
    assert_eq!(reports.num_angles, Some(16));
    assert_eq!(reports.symmetry_count, 3);
    assert_eq!(reports.symmetry_skip, 2);
    assert_eq!(reports.knots.len(), 1);
    let record = &reports.knots[0];
    assert_eq!(record.angles, vec![0, 7, 15, 1, 2]);
    assert_eq!(record.symmetry_adjust, Some(vars));
    assert_eq!(f64::from_bits(record.total_cost_bits), 1.5);
    assert_eq!(record.final_angle_bits, None);
    assert_eq!(record.angle_parity, 0);
}

#[test]
fn cached_fields_complete_a_report() {
    let vars = Vars { radius_bits: 10.0f64.to_bits(), radial_angle_bits: 0.5f64.to_bits() };
    let costs = Costs {
        dist_bits: 0.0f64.to_bits(),
        axis_bits: 0.0f64.to_bits(),
        locking_bits: 0.0f64.to_bits(),
    };
    let mut full = report(0);
    full.final_angle_bits = Some(0.25f64.to_bits());
    full.symmetry_adjust = Some(vars);
    full.costs = Some(costs);
    let complete = cached_completion(full).unwrap();
    assert_eq!(complete.angles, vec![0, 1, 2]);
    assert_eq!(f64::from_bits(complete.final_angle_bits), 0.25);
    assert_eq!(complete.symmetry_adjust, vars);
    assert_eq!(complete.costs, costs);

    // a report missing any cached field comes back unchanged for re-solving
    let mut partial = report(7);
    partial.symmetry_adjust = Some(vars);
    let back = match cached_completion(partial) {
        Err(back) => back,
        Ok(_) => panic!("partial report must not complete from cache"),
    };
    assert_eq!(back.angle_parity, 7);
    assert_eq!(back.symmetry_adjust, Some(vars));
    assert_eq!(back.costs, None);
}

#[test]
fn leg_pairs_pick_cost_variant() {
    assert_eq!(
        cost_orientation(Leg::Incoming, Leg::Incoming),
        CostOrientation::Opposing
    );
    assert_eq!(
        cost_orientation(Leg::Outgoing, Leg::Outgoing),
        CostOrientation::Opposing
    );
    assert_eq!(
        cost_orientation(Leg::Incoming, Leg::Outgoing),
        CostOrientation::Aligned
    );
    assert_eq!(
        cost_orientation(Leg::Outgoing, Leg::Incoming),
        CostOrientation::Aligned
    );
}

#[test]
fn chain_edges_cover_both_sides_of_every_joint() {
    let edges = chain_cost_edges(3, Leg::Outgoing, Leg::Incoming);
    assert_eq!(edges.len(), 6);
    assert_eq!(
        edges[0],
        CostEdge {
            first: JointRef::PrePhantom,
            first_leg: Leg::Outgoing,
            second: JointRef::Chained(0),
            second_leg: Leg::Incoming,
        }
    );
    assert_eq!(
        edges[1],
        CostEdge {
            first: JointRef::Chained(0),
            first_leg: Leg::Outgoing,
            second: JointRef::Chained(1),
            second_leg: Leg::Incoming,
        }
    );
    assert_eq!(
        edges[2],
        CostEdge {
            first: JointRef::Chained(0),
            first_leg: Leg::Outgoing,
            second: JointRef::Chained(1),
            second_leg: Leg::Incoming,
        }
    );
    assert_eq!(
        edges[3],
        CostEdge {
            first: JointRef::Chained(1),
            first_leg: Leg::Outgoing,
            second: JointRef::Chained(2),
            second_leg: Leg::Incoming,
        }
    );
    assert_eq!(
        edges[4],
        CostEdge {
            first: JointRef::Chained(1),
            first_leg: Leg::Outgoing,
            second: JointRef::Chained(2),
            second_leg: Leg::Incoming,
        }
    );
    assert_eq!(
        edges[5],
        CostEdge {
            first: JointRef::Chained(2),
            first_leg: Leg::Outgoing,
            second: JointRef::PostPhantom,
            second_leg: Leg::Incoming,
        }
    );
}

#[test]
fn boundary_phantoms_mirror_chain_ends() {
    let (pre, post) = boundary_phantoms(8);
    assert_eq!(
        pre.symmetry,
        SymmetryElement { rotation: 0, flipped: true }
    );
    assert_eq!(pre.index, 0);
    assert_eq!(pre.leg, Leg::Incoming);
    assert_eq!(
        post.symmetry,
        SymmetryElement { rotation: 1, flipped: true }
    );
    assert_eq!(post.index, 7);
    assert_eq!(post.leg, Leg::Outgoing);

    // the phantoms are the second and fourth enumerated symmetries
    let all = symmetries(6);
    assert_eq!(pre.symmetry, all[1]);
    assert_eq!(post.symmetry, all[3]);
}

#[test]
fn repulsion_exempts_neighbors_and_boundary_twins() {
    // chain neighbors under the untransformed symmetry
    assert!(repulsion_excluded(0, 4, 4, 8));
    assert!(repulsion_excluded(0, 4, 5, 8));
    assert!(repulsion_excluded(0, 4, 3, 8));
    assert!(!repulsion_excluded(0, 4, 6, 8));

    // start joints under the first flipped symmetry
    assert!(repulsion_excluded(1, 0, 0, 8));
    assert!(!repulsion_excluded(1, 0, 1, 8));
    assert!(!repulsion_excluded(1, 4, 4, 8));

    // end joints under the next upright symmetry
    assert!(repulsion_excluded(2, 7, 7, 8));
    assert!(!repulsion_excluded(2, 7, 6, 8));
    assert!(!repulsion_excluded(2, 0, 0, 8));

    // every other symmetry exempts nothing
    assert!(!repulsion_excluded(3, 4, 4, 8));
    assert!(!repulsion_excluded(5, 0, 0, 8));

    assert!(within(3, 5, 2));
    assert!(!within(3, 6, 2));
    assert!(within(6, 3, 3));
}
