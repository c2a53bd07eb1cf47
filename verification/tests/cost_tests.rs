use knot::cost::{
    costs_thresholded, locking_penalty_class, LockingClass, Thresholds, AXIS_CLAMP_BITS,
    LOCKING_CLAMP_BITS,
};
use knot::joint::TurnFraction;

#[test]
fn clamp_constants_are_two_and_one() {
    assert_eq!(f64::from_bits(AXIS_CLAMP_BITS), 2.0);
    assert_eq!(f64::from_bits(LOCKING_CLAMP_BITS), 1.0);
}

#[test]
fn below_both_thresholds_reads_raw_terms() {
    let thresholds = Thresholds {
        dist_for_axis_bits: 4.0f64.to_bits(),
        axis_for_locking_bits: 0.2f64.to_bits(),
    };
    let costs = costs_thresholded(
        &thresholds,
        0.25f64.to_bits(),
        0.13f64.to_bits(),
        0.7f64.to_bits(),
    );
    assert_eq!(f64::from_bits(costs.dist_bits), 0.25);
    assert_eq!(f64::from_bits(costs.axis_bits), 0.13);
    assert_eq!(f64::from_bits(costs.locking_bits), 0.7);
}

#[test]
fn distance_at_threshold_clamps_axis_and_locking() {
    // the axis cost must read exactly 2.0 once the distance cost reaches its
    // threshold, regardless of the actual axis misalignment
    let thresholds = Thresholds {
        dist_for_axis_bits: 1.0f64.to_bits(),
        axis_for_locking_bits: f64::INFINITY.to_bits(),
    };
    let costs = costs_thresholded(
        &thresholds,
        2.25f64.to_bits(),
        0.1339745962155614f64.to_bits(),
        0.3f64.to_bits(),
    );
    assert_eq!(f64::from_bits(costs.dist_bits), 2.25);
    assert_eq!(f64::from_bits(costs.axis_bits), 2.0);
    assert_eq!(f64::from_bits(costs.locking_bits), 1.0);

    // exactly at the threshold still clamps: the test is strictly-below
    let costs = costs_thresholded(
        &thresholds,
        1.0f64.to_bits(),
        0.0f64.to_bits(),
        0.0f64.to_bits(),
    );
    assert_eq!(f64::from_bits(costs.axis_bits), 2.0);

    // just below the threshold reads the raw terms
    let costs = costs_thresholded(
        &thresholds,
        0.25f64.to_bits(),
        0.1339745962155614f64.to_bits(),
        0.0f64.to_bits(),
    );
    assert_eq!(f64::from_bits(costs.axis_bits), 0.1339745962155614);
    assert_eq!(f64::from_bits(costs.locking_bits), 0.0);
}

#[test]
fn axis_at_threshold_clamps_locking_only() {
    // the locking cost must read exactly 1.0 once the axis cost reaches its
    // threshold, regardless of the actual locking angle
    let thresholds = Thresholds {
        dist_for_axis_bits: f64::INFINITY.to_bits(),
        axis_for_locking_bits: (1.0 - 0.5f64.sqrt()).to_bits(),
    };
    let costs = costs_thresholded(
        &thresholds,
        0.0f64.to_bits(),
        0.5f64.to_bits(),
        0.123f64.to_bits(),
    );
    assert_eq!(f64::from_bits(costs.dist_bits), 0.0);
    assert_eq!(f64::from_bits(costs.axis_bits), 0.5);
    assert_eq!(f64::from_bits(costs.locking_bits), 1.0);

    let below = 1.0 - 3.0f64.sqrt() / 2.0;
    let costs = costs_thresholded(
        &thresholds,
        0.0f64.to_bits(),
        below.to_bits(),
        0.123f64.to_bits(),
    );
    assert_eq!(f64::from_bits(costs.axis_bits), below);
    assert_eq!(f64::from_bits(costs.locking_bits), 0.123);
}

#[test]
fn locking_periodicity() {
    // with four discrete angles, a twist of exactly a quarter turn (one
    // discrete step) locks perfectly
    assert_eq!(
        locking_penalty_class(4, TurnFraction { num: 1, denom: 4 }),
        LockingClass::Zero
    );
    // a twist of an eighth of a turn (half a step) sits at the penalty's
    // maximum
    assert_eq!(
        locking_penalty_class(4, TurnFraction { num: 1, denom: 8 }),
        LockingClass::Maximum
    );

    // whole steps lock at any multiple, in either direction
    assert_eq!(
        locking_penalty_class(4, TurnFraction { num: 3, denom: 4 }),
        LockingClass::Zero
    );
    assert_eq!(
        locking_penalty_class(4, TurnFraction { num: -2, denom: 4 }),
        LockingClass::Zero
    );
    assert_eq!(
        locking_penalty_class(16, TurnFraction { num: -5, denom: 16 }),
        LockingClass::Zero
    );

    // half steps are maximal in either direction
    assert_eq!(
        locking_penalty_class(4, TurnFraction { num: -1, denom: 8 }),
        LockingClass::Maximum
    );

    // anything else lies strictly between
    assert_eq!(
        locking_penalty_class(4, TurnFraction { num: 1, denom: 16 }),
        LockingClass::Intermediate
    );
    assert_eq!(
        locking_penalty_class(16, TurnFraction { num: 7, denom: 24 }),
        LockingClass::Intermediate
    );
}

#[test]
fn nan_distance_clamps() {
    // a NaN distance fails the strictly-below test, so both guarded terms clamp
    let thresholds = Thresholds {
        dist_for_axis_bits: 4.0f64.to_bits(),
        axis_for_locking_bits: 0.2f64.to_bits(),
    };
    let costs = costs_thresholded(
        &thresholds,
        f64::NAN.to_bits(),
        0.0f64.to_bits(),
        0.0f64.to_bits(),
    );
    assert!(f64::from_bits(costs.dist_bits).is_nan());
    assert_eq!(f64::from_bits(costs.axis_bits), 2.0);
    assert_eq!(f64::from_bits(costs.locking_bits), 1.0);
}
