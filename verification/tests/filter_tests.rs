use knot::filter::{
    assert_same, collisions_with_symmetry, connected_branches, exact_size, is_extreme,
    midpoints_size_hint, one_apart, opposing_horseshoe_partner, points_size_hint,
    same_horseshoe_partner, CheckCollision, CollisionGrid, CollisionOutcome, CollisionSphere,
};

fn sphere(index: u32, symmetry_index: u32) -> CollisionSphere {
    CollisionSphere {
        x: 0,
        y: 0,
        z: 0,
        radius: 1,
        point_count: 7,
        symmetry_count: 3,
        skip: 2,
        index,
        symmetry_index,
    }
}

fn collide(sphere1: CollisionSphere, sphere2: CollisionSphere) -> bool {
    let collide_left_to_right = sphere1.check_collision(&sphere2).is_some();
    let collide_right_to_left = sphere2.check_collision(&sphere1).is_some();
    assert_same(collide_left_to_right, collide_right_to_left)
}

#[test]
fn trefoil_collision_protections() {
    assert_eq!(same_horseshoe_partner(3, 0), 1);
    assert_eq!(same_horseshoe_partner(3, 1), 0);
    assert_eq!(same_horseshoe_partner(3, 2), 3);
    assert_eq!(same_horseshoe_partner(3, 3), 2);
    assert_eq!(same_horseshoe_partner(3, 4), 5);
    assert_eq!(same_horseshoe_partner(3, 5), 4);

    assert_eq!(opposing_horseshoe_partner(3, 2, 0), 5);
    assert_eq!(opposing_horseshoe_partner(3, 2, 1), 2);
    assert_eq!(opposing_horseshoe_partner(3, 2, 2), 1);
    assert_eq!(opposing_horseshoe_partner(3, 2, 3), 4);
    assert_eq!(opposing_horseshoe_partner(3, 2, 4), 3);
    assert_eq!(opposing_horseshoe_partner(3, 2, 5), 0);

    // Self-protection
    assert!(!collide(sphere(0, 0), sphere(0, 0)));

    // Same-branch neighbor protection
    assert!(!collide(sphere(1, 0), sphere(0, 0)));
    assert!(!collide(sphere(1, 0), sphere(2, 0)));

    // Same-horseshoe symmetrized counterpart protection
    assert!(!collide(sphere(0, 0), sphere(0, 1)));

    // Opposing-horseshoe symmetrized counterpart protection
    assert!(!collide(sphere(6, 0), sphere(6, 5)));
    assert!(!collide(sphere(6, 1), sphere(6, 2)));

    // Same-horseshoe symmetrized neighbor protection
    assert!(!collide(sphere(0, 0), sphere(1, 1)));
    assert!(!collide(sphere(0, 1), sphere(1, 0)));

    // Opposing-horseshoe symmetrized neighbor protection
    assert!(!collide(sphere(6, 0), sphere(5, 5)));
    assert!(!collide(sphere(5, 0), sphere(6, 5)));
}

#[test]
fn unprotected_pairs_use_distance() {
    // interior points of unrelated branches: protected by nothing
    let near = collide(sphere(3, 0), sphere(3, 3));
    assert!(near);

    // the same pair far apart does not collide
    let mut a = sphere(3, 0);
    let mut b = sphere(3, 3);
    a.x = 0;
    b.x = 100;
    assert!(!collide(a, b));

    // touching exactly at the surface is not a collision (strict inequality)
    b.x = 2;
    assert!(!collide(a, b));
    b.x = 1;
    assert!(collide(a, b));
}

#[test]
fn one_apart_depth_two() {
    assert!(!one_apart(4, 4));
    assert!(one_apart(4, 5));
    assert!(one_apart(5, 4));
    assert!(one_apart(4, 6));
    assert!(one_apart(6, 4));
    assert!(!one_apart(4, 7));
    assert!(!one_apart(0, 3));
}

#[test]
fn extreme_points() {
    assert!(is_extreme(0, 7));
    assert!(is_extreme(1, 7));
    assert!(is_extreme(5, 7));
    assert!(is_extreme(6, 7));
    assert!(!is_extreme(2, 7));
    assert!(!is_extreme(3, 7));
    assert!(!is_extreme(4, 7));
}

#[test]
fn branch_connectivity() {
    assert!(connected_branches(3, 2, 0, 1));
    assert!(connected_branches(3, 2, 0, 5));
    assert!(!connected_branches(3, 2, 0, 2));
    assert!(!connected_branches(3, 2, 0, 3));
    assert!(!connected_branches(3, 2, 0, 4));
    assert!(!connected_branches(3, 2, 0, 0));
}

#[test]
fn grid_reports_hits_in_order() {
    let mut grid: CollisionGrid<CollisionSphere> = CollisionGrid::new(0);
    let mut far = sphere(3, 0);
    far.x = 1000;
    grid.add(&far);
    let mut near = sphere(3, 3);
    near.x = 1;
    grid.add(&near);
    // the far sphere misses, and a same-branch twin would be protected:
    // only the near, unprotected sphere is reported
    let hits = grid.collisions(&sphere(3, 0));
    assert_eq!(hits.len(), 1);
    assert_eq!(hits[0], near);
}

#[test]
fn assembly_scan_finds_unprotected_overlap() {
    // two interior points of unrelated branches at the same place
    let spheres = vec![sphere(3, 0), sphere(3, 3)];
    assert_eq!(
        collisions_with_symmetry(&spheres),
        CollisionOutcome::Collision
    );

    // protected overlaps only: chain neighbors and connected branch ends
    let spheres = vec![sphere(0, 0), sphere(1, 0), sphere(0, 1)];
    assert_eq!(
        collisions_with_symmetry(&spheres),
        CollisionOutcome::NoCollisions
    );
}

#[test]
fn size_helpers() {
    assert_eq!(exact_size(5, Some(5)), 5);

    assert_eq!(points_size_hint(3, Some(3)), (5, Some(5)));
    assert_eq!(points_size_hint(0, Some(0)), (0, Some(0)));
    assert_eq!(points_size_hint(4, None), (6, None));

    assert_eq!(midpoints_size_hint(5, Some(5)), (9, Some(9)));
    assert_eq!(midpoints_size_hint(1, Some(1)), (1, Some(1)));
    assert_eq!(midpoints_size_hint(0, None), (0, None));
}
