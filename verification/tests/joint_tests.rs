use std::f64::consts::PI;

use knot::joint::{discrete_angles, discrete_symmetric_angles, JointSpec, TurnFraction};
use knot::report::JointsParity;

fn frac_radians(f: TurnFraction) -> f64 {
    2.0 * PI * (f.num as f64) / (f.denom as f64)
}

fn assert_close(a: f64, b: f64) {
    assert!((a - b).abs() < 1e-12, "{} != {}", a, b);
}

#[test]
fn discrete() {
    let spec = JointSpec::new(
        1.0f64.to_bits(),
        1.0f64.to_bits(),
        (PI / 5.0).to_bits(),
        0.5f64.to_bits(),
    );
    let angles = vec![0i32, 1, 2, -1];
    let rel_joints = discrete_angles(spec, 16, &angles);

    assert_eq!(rel_joints.len(), 4);

    assert_eq!(rel_joints[0].spec, spec);
    assert_eq!(rel_joints[1].spec, spec);
    assert_eq!(rel_joints[2].spec, spec);

    assert_close(frac_radians(rel_joints[0].angle), 0.0);
    assert_close(frac_radians(rel_joints[1].angle), PI / 8.0);
    assert_close(frac_radians(rel_joints[2].angle), PI / 4.0);
    assert_close(frac_radians(rel_joints[3].angle), -PI / 8.0);
}

#[test]
fn symmetric_even_chain_halves_first_angle() {
    let spec = JointSpec::new(
        1.0f64.to_bits(),
        1.0f64.to_bits(),
        (PI / 6.0).to_bits(),
        1.25f64.to_bits(),
    );
    let angles = vec![3i32, 3, -2];
    let rel = discrete_symmetric_angles(spec, 16, JointsParity::Even, &angles);
    assert_eq!(rel.len(), 3);
    assert_eq!(rel[0].angle, TurnFraction { num: 3, denom: 32 });
    assert_eq!(rel[1].angle, TurnFraction { num: 3, denom: 16 });
    assert_eq!(rel[2].angle, TurnFraction { num: -2, denom: 16 });
    assert_close(
        frac_radians(rel[0].angle),
        0.5 * frac_radians(rel[1].angle),
    );

    let rel = discrete_symmetric_angles(spec, 16, JointsParity::Odd, &angles);
    assert_eq!(rel[0].angle, TurnFraction { num: 3, denom: 16 });
    assert_eq!(rel[1].angle, TurnFraction { num: 3, denom: 16 });
}

#[test]
fn joint_spec_carries_its_parameters() {
    let spec = JointSpec::new(
        1.0f64.to_bits(),
        2.0f64.to_bits(),
        (PI / 4.0).to_bits(),
        0.5f64.to_bits(),
    );
    assert_eq!(f64::from_bits(spec.dist_in()), 1.0);
    assert_eq!(f64::from_bits(spec.dist_out()), 2.0);
    assert_eq!(f64::from_bits(spec.bend_angle()), PI / 4.0);
    assert_eq!(f64::from_bits(spec.radius()), 0.5);
}
