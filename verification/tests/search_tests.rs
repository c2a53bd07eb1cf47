use knot::search::{angles_for_index, good_candidates, rank_knots, Knot};
use knot::symmetry_adjust::Vars;

fn candidate(cost: f64, good: bool, tag: u32) -> Knot {
    Knot {
        angles: vec![tag, 0, 0, 0, 0],
        symmetry_adjust: Vars { radius_bits: 0, radial_angle_bits: 0 },
        cost_bits: cost.to_bits(),
        good_candidate: good,
    }
}

#[test]
fn index_decodes_to_digits() {
    // 16^5 combinations of 5 joints with 16 angles each
    let angles = angles_for_index(16, 5, 0);
    assert_eq!(angles, vec![0, 0, 0, 0, 0]);

    let angles = angles_for_index(16, 5, 1);
    assert_eq!(angles, vec![1, 0, 0, 0, 0]);

    // 0x9C40A = 10 + 0*16 + 4*256 + 12*4096 + 9*65536
    let angles = angles_for_index(16, 5, 0x9C40A);
    assert_eq!(angles, vec![10, 0, 4, 12, 9]);

    let angles = angles_for_index(16, 5, 16u64.pow(5) - 1);
    assert_eq!(angles, vec![15, 15, 15, 15, 15]);

    let angles = angles_for_index(3, 4, 2 + 3 * (1 + 3 * (0 + 3 * 2)));
    assert_eq!(angles, vec![2, 1, 0, 2]);
}

#[test]
fn invalid_candidates_are_dropped() {
    let knots = vec![
        candidate(1.0, true, 0),
        candidate(0.5, false, 1),
        candidate(2.0, true, 2),
    ];
    let good = good_candidates(knots);
    assert_eq!(good.len(), 2);
    assert_eq!(good[0].angles[0], 0);
    assert_eq!(good[1].angles[0], 2);
}

#[test]
fn ranking_keeps_cheapest_valid_candidates() {
    let knots = vec![
        candidate(5.0, true, 0),
        candidate(1.0, false, 1),
        candidate(3.0, true, 2),
        candidate(f64::NAN, true, 3),
        candidate(2.0, true, 4),
        candidate(4.0, true, 5),
    ];
    let ranked = rank_knots(knots, 3);
    assert_eq!(ranked.len(), 3);
    assert_eq!(f64::from_bits(ranked[0].cost_bits), 2.0);
    assert_eq!(ranked[0].angles[0], 4);
    assert_eq!(f64::from_bits(ranked[1].cost_bits), 3.0);
    assert_eq!(ranked[1].angles[0], 2);
    assert_eq!(f64::from_bits(ranked[2].cost_bits), 4.0);
    assert_eq!(ranked[2].angles[0], 5);
}

#[test]
fn ranking_truncates_to_keep_count() {
    let knots = vec![candidate(1.0, true, 0), candidate(2.0, true, 1)];
    let ranked = rank_knots(knots, 2048);
    assert_eq!(ranked.len(), 2);

    let knots = vec![candidate(1.0, false, 0), candidate(2.0, false, 1)];
    let ranked = rank_knots(knots, 2048);
    assert_eq!(ranked.len(), 0);
}
