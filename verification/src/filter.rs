//! Neighbor-protection rules for self-collision tests.
//!
//! A candidate knot is an assembly of `2 * symmetry_count` symmetric copies
//! ("branches") of one joint chain.  Chain-adjacent points, and points that a
//! symmetry maps onto a neighboring branch end, are supposed to touch, so a
//! collision test must exempt ("protect") exactly those pairs.  Each branch is
//! one half of a "horseshoe": branch `2k` and branch `2k + 1` form horseshoe
//! `k`, and the `skip` parameter selects which horseshoe a branch connects to
//! on its far side.

use vstd::prelude::*;

verus! {

/// Whether two point indices along one branch are immediate or second
/// neighbors (the protection depth used by the collision filter).
pub open spec fn spec_one_apart(a: u32, b: u32) -> bool {
    a + 1 == b || a == b + 1 || a + 2 == b || a == b + 2
}

/// Whether two point indices along the same branch are close enough to be
/// collision-protected as chain neighbors.
pub fn one_apart(a: u32, b: u32) -> (r: bool)
    ensures
        r == spec_one_apart(a, b),
{
    (a < b && b - a <= 2) || (b < a && a - b <= 2)
}

/// The branch index whose points coincide with the start of branch
/// `symmetry_index`: the other half of the same horseshoe.
pub open spec fn spec_same_horseshoe_partner(symmetry_count: u32, symmetry_index: u32) -> int {
    if symmetry_index % 2 == 0 {
        (symmetry_index + 1) % (symmetry_count * 2)
    } else {
        (symmetry_index - 1) % (symmetry_count * 2)
    }
}

/// Partner branch within one horseshoe: even branches pair with the next
/// index, odd branches with the previous one.
pub fn same_horseshoe_partner(symmetry_count: u32, symmetry_index: u32) -> (r: u32)
    requires
        1 <= symmetry_count <= 0x3FFF_FFFF,
        symmetry_index < symmetry_count * 2,
    ensures
        r == spec_same_horseshoe_partner(symmetry_count, symmetry_index),
        r < symmetry_count * 2,
{
    if symmetry_index % 2 == 0 {
        (symmetry_index + 1) % (symmetry_count * 2)
    } else {
        (symmetry_index - 1) % (symmetry_count * 2)
    }
}

/// The branch index whose points coincide with the far end of branch
/// `symmetry_index`: the half of the horseshoe `skip` slices away.
pub open spec fn spec_opposing_horseshoe_partner(
    symmetry_count: u32,
    skip: u32,
    symmetry_index: u32,
) -> int {
    if symmetry_index % 2 == 0 {
        (symmetry_index + skip * 2 + 1) % (symmetry_count * 2)
    } else {
        (symmetry_index + symmetry_count * 2 - skip * 2 - 1) % (symmetry_count * 2)
    }
}

/// Partner branch on the opposing horseshoe, determined by how many symmetry
/// slices the chain skips before reconnecting.
pub fn opposing_horseshoe_partner(symmetry_count: u32, skip: u32, symmetry_index: u32) -> (r: u32)
    requires
        1 <= symmetry_count <= 0x3FFF_FFFF,
        skip < symmetry_count,
        symmetry_index < symmetry_count * 2,
    ensures
        r == spec_opposing_horseshoe_partner(symmetry_count, skip, symmetry_index),
        r < symmetry_count * 2,
{
    if symmetry_index % 2 == 0 {
        (symmetry_index + skip * 2 + 1) % (symmetry_count * 2)
    } else {
        (symmetry_index + symmetry_count * 2 - skip * 2 - 1) % (symmetry_count * 2)
    }
}

/// Whether branch `symmetry_index2` is one of the two branches whose end
/// points are meant to coincide with those of branch `symmetry_index1`.
pub open spec fn spec_connected_branches(
    symmetry_count: u32,
    skip: u32,
    symmetry_index1: u32,
    symmetry_index2: u32,
) -> bool {
    spec_same_horseshoe_partner(symmetry_count, symmetry_index1) == symmetry_index2
        || spec_opposing_horseshoe_partner(symmetry_count, skip, symmetry_index1)
        == symmetry_index2
}

/// Whether two branches are connected, either within one horseshoe or across
/// the skip to the opposing horseshoe.
pub fn connected_branches(
    symmetry_count: u32,
    skip: u32,
    symmetry_index1: u32,
    symmetry_index2: u32,
) -> (r: bool)
    requires
        1 <= symmetry_count <= 0x3FFF_FFFF,
        skip < symmetry_count,
        symmetry_index1 < symmetry_count * 2,
    ensures
        r == spec_connected_branches(symmetry_count, skip, symmetry_index1, symmetry_index2),
{
    same_horseshoe_partner(symmetry_count, symmetry_index1) == symmetry_index2
        || opposing_horseshoe_partner(symmetry_count, skip, symmetry_index1) == symmetry_index2
}

/// Whether a point index lies at one of the two ends of a branch, to the
/// protection depth of two points.
pub open spec fn spec_is_extreme(x: u32, count: u32) -> bool {
    x == 0 || x + 1 == count || x + 2 == count || x == 1
}

/// Whether point `x` of a branch of `count` points is an end point (or an end
/// point's immediate neighbor).
pub fn is_extreme(x: u32, count: u32) -> (r: bool)
    ensures
        r == spec_is_extreme(x, count),
{
    x == 0 || x == 1 || (count >= 1 && x == count - 1) || (count >= 2 && x == count - 2)
}

/// Return one of two values that are already known to be equal, so that later
/// code need not arbitrarily favor either name for them.
pub fn assert_same<T>(a: T, b: T) -> (r: T)
    requires
        a == b,
    ensures
        r == a,
{
    let _ = b;
    a
}

/// The length of an iterator whose size hint is exact (`upper == Some(lower)`).
pub fn exact_size(lower: usize, upper: Option<usize>) -> (r: usize)
    requires
        upper == Some(lower),
    ensures
        r == lower,
{
    lower
}

/// The size hint of the point sequence of a chain: a chain of `n` joints
/// contributes its entry point, one point per joint, and its exit point, so a
/// nonempty chain of `n` joints yields `n + 2` points.
pub fn points_size_hint(lower: usize, upper: Option<usize>) -> (r: (usize, Option<usize>))
    requires
        lower + 2 <= usize::MAX,
        upper is Some ==> upper->0 + 2 <= usize::MAX,
    ensures
        r.0 == if lower > 0 {
            lower + 2
        } else {
            0
        },
        r.1 == match upper {
            Some(u) => Some(
                if u > 0 {
                    (u + 2) as usize
                } else {
                    0
                },
            ),
            None => None::<usize>,
        },
{
    let first: usize = if lower > 0 {
        lower + 2
    } else {
        0
    };
    let second: Option<usize> = match upper {
        Some(u) => Some(
            if u > 0 {
                u + 2
            } else {
                0
            },
        ),
        None => None,
    };
    (first, second)
}

/// The size hint of a point sequence with midpoints inserted between
/// consecutive points: `k` points grow to `2k - 1` once `k >= 2`.
pub fn midpoints_size_hint(lower: usize, upper: Option<usize>) -> (r: (usize, Option<usize>))
    requires
        lower * 2 <= usize::MAX,
        upper is Some ==> upper->0 * 2 <= usize::MAX,
    ensures
        r.0 == if lower >= 2 {
            lower * 2 - 1
        } else {
            lower as int
        },
        r.1 == match upper {
            Some(u) => Some(
                if u >= 2 {
                    (u * 2 - 1) as usize
                } else {
                    u
                },
            ),
            None => None::<usize>,
        },
{
    let first: usize = if lower >= 2 {
        lower * 2 - 1
    } else {
        lower
    };
    let second: Option<usize> = match upper {
        Some(u) => Some(
            if u >= 2 {
                u * 2 - 1
            } else {
                u
            },
        ),
        None => None,
    };
    (first, second)
}

/// Coordinates here are fixed-point integers (a scaled, rounded image of the
/// continuous geometry), so the sphere-overlap test below is exact integer
/// arithmetic.  This bound on every coordinate and radius keeps all of it far
/// from overflow.
pub const COORD_LIMIT: i64 = 0x7FFF_FFFF;

/// An interval of fixed-point coordinates.
#[derive(Clone, Copy, Debug, PartialEq, Eq, Structural)]
pub struct Bounds {
    pub min: i64,
    pub max: i64,
}

/// An axis-aligned box of fixed-point coordinates.
#[derive(Clone, Copy, Debug, PartialEq, Eq, Structural)]
pub struct BoundingBox {
    pub x: Bounds,
    pub y: Bounds,
    pub z: Bounds,
}

/// A collider that can report an axis-aligned box enclosing itself.
pub trait BoundedCollider {
    /// Well-formedness of the collider's geometry.
    spec fn bounded(&self) -> bool;

    /// The box the collider promises to return.
    spec fn bounding_box_spec(&self) -> BoundingBox;

    /// Report a box enclosing the collider.
    fn bounding_box(&self) -> (r: BoundingBox)
        requires
            self.bounded(),
        ensures
            r == self.bounding_box_spec(),
    ;
}

/// A collider that can be tested against colliders of type `T`, yielding
/// data about any collision found.
pub trait CheckCollision<T>: BoundedCollider {
    type CollisionData;

    /// When a pair may be tested at all (well-formed, same configuration).
    spec fn compatible(&self, other: T) -> bool;

    /// The outcome the test promises.
    spec fn check_collision_spec(&self, other: T) -> Option<Self::CollisionData>;

    /// Test this collider against another; `None` means no collision.
    fn check_collision(&self, other: &T) -> (r: Option<Self::CollisionData>)
        requires
            self.compatible(*other),
        ensures
            r == self.check_collision_spec(*other),
    ;
}

/// One symmetrized copy of one chain point, as subjected to the
/// self-collision test: its fixed-point center and radius, its index along
/// the chain, and which symmetry branch the copy belongs to.
#[derive(Clone, Copy, Debug, PartialEq, Eq, Structural)]
pub struct CollisionSphere {
    pub x: i64,
    pub y: i64,
    pub z: i64,
    pub radius: i64,
    pub index: u32,
    pub point_count: u32,
    pub symmetry_index: u32,
    pub symmetry_count: u32,
    pub skip: u32,
}

impl CollisionSphere {
    /// Geometry within the fixed-point bounds and symmetry fields in range.
    pub open spec fn wf(&self) -> bool {
        &&& -COORD_LIMIT <= self.x <= COORD_LIMIT
        &&& -COORD_LIMIT <= self.y <= COORD_LIMIT
        &&& -COORD_LIMIT <= self.z <= COORD_LIMIT
        &&& 0 <= self.radius <= COORD_LIMIT
        &&& 1 <= self.symmetry_count <= 0x3FFF_FFFF
        &&& self.symmetry_index < self.symmetry_count * 2
        &&& self.skip < self.symmetry_count
    }

    /// Whether the pair is collision-protected: chain neighbors on one
    /// branch, or coinciding and neighboring end points of connected
    /// branches.
    pub open spec fn spec_protected(&self, other: CollisionSphere) -> bool {
        if self.symmetry_index == other.symmetry_index {
            self.index == other.index || spec_one_apart(self.index, other.index)
        } else if spec_connected_branches(
            self.symmetry_count,
            self.skip,
            self.symmetry_index,
            other.symmetry_index,
        ) {
            let self_extreme = spec_is_extreme(self.index, self.point_count);
            let other_extreme = spec_is_extreme(other.index, self.point_count);
            (self_extreme && other_extreme && self.index == other.index) || ((self_extreme
                || other_extreme) && spec_one_apart(self.index, other.index))
        } else {
            false
        }
    }

    /// Whether the two spheres' balls overlap: squared center distance below
    /// the squared sum of radii, in exact fixed-point arithmetic.
    pub open spec fn spec_overlapping(&self, other: CollisionSphere) -> bool {
        let dx = other.x - self.x;
        let dy = other.y - self.y;
        let dz = other.z - self.z;
        let total_rad = self.radius + other.radius;
        dx * dx + dy * dy + dz * dz < total_rad * total_rad
    }

    /// Whether the pair counts as a collision: overlapping and not protected.
    pub open spec fn spec_colliding(&self, other: CollisionSphere) -> bool {
        !self.spec_protected(other) && self.spec_overlapping(other)
    }
}

impl BoundedCollider for CollisionSphere {
    open spec fn bounded(&self) -> bool {
        self.wf()
    }

    open spec fn bounding_box_spec(&self) -> BoundingBox {
        BoundingBox {
            x: (Bounds { min: (self.x - self.radius) as i64, max: (self.x + self.radius) as i64 }),
            y: (Bounds { min: (self.y - self.radius) as i64, max: (self.y + self.radius) as i64 }),
            z: (Bounds { min: (self.z - self.radius) as i64, max: (self.z + self.radius) as i64 }),
        }
    }

    fn bounding_box(&self) -> (r: BoundingBox) {
        BoundingBox {
            x: Bounds { min: self.x - self.radius, max: self.x + self.radius },
            y: Bounds { min: self.y - self.radius, max: self.y + self.radius },
            z: Bounds { min: self.z - self.radius, max: self.z + self.radius },
        }
    }
}

impl CheckCollision<CollisionSphere> for CollisionSphere {
    type CollisionData = CollisionSphere;

    open spec fn compatible(&self, other: CollisionSphere) -> bool {
        &&& self.wf()
        &&& other.wf()
        &&& self.point_count == other.point_count
        &&& self.symmetry_count == other.symmetry_count
        &&& self.skip == other.skip
    }

    open spec fn check_collision_spec(&self, other: CollisionSphere) -> Option<CollisionSphere> {
        if self.spec_colliding(other) {
            Some(other)
        } else {
            None
        }
    }

    fn check_collision(&self, other: &CollisionSphere) -> (r: Option<CollisionSphere>) {
        let point_count = assert_same(self.point_count, other.point_count);
        let symmetry_count = assert_same(self.symmetry_count, other.symmetry_count);
        let skip = assert_same(self.skip, other.skip);

        let protected = if self.symmetry_index == other.symmetry_index {
            self.index == other.index || one_apart(self.index, other.index)
        } else if connected_branches(
            symmetry_count,
            skip,
            self.symmetry_index,
            other.symmetry_index,
        ) {
            let self_extreme = is_extreme(self.index, point_count);
            let other_extreme = is_extreme(other.index, point_count);
            let overlapping = self_extreme && other_extreme && self.index == other.index;
            let neighbors = (self_extreme || other_extreme) && one_apart(self.index, other.index);
            overlapping || neighbors
        } else {
            false
        };

        let colliding = if protected {
            false
        } else {
            let dx: i128 = (other.x as i128) - (self.x as i128);
            let dy: i128 = (other.y as i128) - (self.y as i128);
            let dz: i128 = (other.z as i128) - (self.z as i128);
            let total_rad: i128 = (self.radius as i128) + (other.radius as i128);
            proof {
                assert(dx * dx <= 0x1_0000_0000 * 0x1_0000_0000) by (nonlinear_arith)
                    requires
                        -0x1_0000_0000 <= dx <= 0x1_0000_0000,
                ;
                assert(dy * dy <= 0x1_0000_0000 * 0x1_0000_0000) by (nonlinear_arith)
                    requires
                        -0x1_0000_0000 <= dy <= 0x1_0000_0000,
                ;
                assert(dz * dz <= 0x1_0000_0000 * 0x1_0000_0000) by (nonlinear_arith)
                    requires
                        -0x1_0000_0000 <= dz <= 0x1_0000_0000,
                ;
                assert(0 <= dx * dx) by (nonlinear_arith);
                assert(0 <= dy * dy) by (nonlinear_arith);
                assert(0 <= dz * dz) by (nonlinear_arith);
                assert(total_rad * total_rad <= 0x1_0000_0000 * 0x1_0000_0000)
                    by (nonlinear_arith)
                    requires
                        0 <= total_rad <= 0x1_0000_0000,
                ;
            }
            let dist_squ: i128 = dx * dx + dy * dy + dz * dz;
            dist_squ < total_rad * total_rad
        };

        if colliding {
            Some(*other)
        } else {
            None
        }
    }
}

/// The outcome of scanning a candidate assembly for self-collisions.
#[derive(Clone, Copy, Debug, PartialEq, Eq, Structural)]
pub enum CollisionOutcome {
    Collision,
    NoCollisions,
}

/// A collision accelerator.  This is the trivial variant: it remembers every
/// collider and tests a query against each in turn; the spatially partitioned
/// variant is an optional optimization with identical observable behavior.
#[derive(Clone, Debug)]
pub struct CollisionGrid<T> {
    colliders: Vec<T>,
}

/// The sequence of collision data the grid promises from a query: the
/// outcome of testing the query against each remembered collider, in
/// insertion order, with the misses dropped.
pub open spec fn collisions_spec<T, U: CheckCollision<T>>(test: U, s: Seq<T>) -> Seq<
    U::CollisionData,
>
    decreases s.len(),
{
    if s.len() == 0 {
        Seq::empty()
    } else {
        let rest = collisions_spec(test, s.drop_last());
        match test.check_collision_spec(s.last()) {
            Some(data) => rest.push(data),
            None => rest,
        }
    }
}

impl<T> CollisionGrid<T> {
    /// The colliders remembered so far, in insertion order.
    pub closed spec fn contents(&self) -> Seq<T> {
        self.colliders@
    }

    /// An empty accelerator.  The cell size would configure the spatial
    /// partition; the trivial variant accepts and ignores it.
    pub fn new(_cell_size: i64) -> (r: CollisionGrid<T>)
        ensures
            r.contents() =~= Seq::<T>::empty(),
    {
        CollisionGrid { colliders: Vec::new() }
    }

    /// Remember one collider.
    pub fn add(&mut self, collider: &T) where T: Copy + BoundedCollider
        ensures
            final(self).contents() =~= old(self).contents().push(*collider),
    {
        self.colliders.push(*collider);
    }

    /// Test a query collider against everything remembered so far and
    /// collect the collision data of every hit, in insertion order.
    pub fn collisions<U: CheckCollision<T>>(&self, test_collider: &U) -> (r: Vec<U::CollisionData>)
        requires
            forall|i: int|
                0 <= i < self.contents().len() ==> test_collider.compatible(
                    #[trigger] self.contents()[i],
                ),
        ensures
            r@ =~= collisions_spec(*test_collider, self.contents()),
    {
        let mut results: Vec<U::CollisionData> = Vec::new();
        let mut i: usize = 0;
        while i < self.colliders.len()
            invariant
                i <= self.contents().len(),
                forall|k: int|
                    0 <= k < self.contents().len() ==> test_collider.compatible(
                        #[trigger] self.contents()[k],
                    ),
                results@ =~= collisions_spec(*test_collider, self.contents().take(i as int)),
            decreases self.contents().len() - i,
        {
            let ghost prev_take = self.contents().take(i as int);
            if let Some(data) = test_collider.check_collision(&self.colliders[i]) {
                results.push(data);
            }
            proof {
                assert(self.contents().take(i + 1).drop_last() =~= prev_take);
                assert(self.contents().take(i + 1).last() == self.contents()[i as int]);
            }
            i = i + 1;
        }
        proof {
            assert(self.contents().take(self.contents().len() as int) =~= self.contents());
        }
        results
    }
}

/// Whether some earlier sphere of the assembly collides with sphere `j`.
pub open spec fn spec_collision_before(s: Seq<CollisionSphere>, j: int) -> bool {
    exists|i: int| 0 <= i < j && s[j].spec_colliding(s[i])
}

/// Scan a candidate assembly (every symmetrized copy of every chain point,
/// already quantized to fixed-point spheres, in placement order) for
/// self-collisions.  Protected pairs never count, whatever their distance;
/// every other pair counts exactly when the balls overlap.
pub fn collisions_with_symmetry(spheres: &Vec<CollisionSphere>) -> (r: CollisionOutcome)
    requires
        forall|i: int, j: int|
            0 <= i < spheres@.len() && 0 <= j < spheres@.len() ==> #[trigger] spheres@[i].compatible(
                spheres@[j],
            ),
    ensures
        r == CollisionOutcome::Collision <==> exists|j: int|
            0 <= j < spheres@.len() && spec_collision_before(spheres@, j),
{
    let mut grid: CollisionGrid<CollisionSphere> = CollisionGrid::new(0);
    let mut i: usize = 0;
    while i < spheres.len()
        invariant
            i <= spheres@.len(),
            grid.contents() =~= spheres@.take(i as int),
            forall|a: int, b: int|
                0 <= a < spheres@.len() && 0 <= b < spheres@.len()
                    ==> #[trigger] spheres@[a].compatible(spheres@[b]),
            forall|j: int| 0 <= j < i ==> !spec_collision_before(spheres@, j),
        decreases spheres@.len() - i,
    {
        let sphere = spheres[i];
        let hits = grid.collisions(&sphere);
        if hits.len() > 0 {
            proof {
                lemma_collisions_spec_hit(sphere, spheres@.take(i as int));
                assert(spec_collision_before(spheres@, i as int));
            }
            return CollisionOutcome::Collision;
        }
        proof {
            lemma_collisions_spec_miss(sphere, spheres@.take(i as int));
            assert forall|k: int| 0 <= k < i implies !spheres@[i as int].spec_colliding(
                #[trigger] spheres@[k],
            ) by {
                assert(spheres@.take(i as int)[k] == spheres@[k]);
            }
            assert(!spec_collision_before(spheres@, i as int));
        }
        grid.add(&sphere);
        i = i + 1;
    }
    CollisionOutcome::NoCollisions
}

/// The scan in placement order misses nothing: some sphere collides with
/// an earlier one exactly when some unordered pair of distinct spheres
/// collides at all.
pub proof fn lemma_scan_covers_all_pairs(s: Seq<CollisionSphere>)
    requires
        forall|i: int, j: int|
            0 <= i < s.len() && 0 <= j < s.len() ==> #[trigger] s[i].compatible(s[j]),
    ensures
        (exists|j: int| 0 <= j < s.len() && spec_collision_before(s, j)) <==> (exists|i: int, j: int|
            0 <= i < s.len() && 0 <= j < s.len() && i != j && s[i].spec_colliding(s[j])),
{
    if exists|j: int| 0 <= j < s.len() && spec_collision_before(s, j) {
        let j = choose|j: int| 0 <= j < s.len() && spec_collision_before(s, j);
        let i = choose|i: int| 0 <= i < j && s[j].spec_colliding(s[i]);
        assert(0 <= j < s.len() && 0 <= i < s.len() && j != i && s[j].spec_colliding(s[i]));
    }
    if exists|i: int, j: int|
        0 <= i < s.len() && 0 <= j < s.len() && i != j && s[i].spec_colliding(s[j]) {
        let (i, j): (int, int) = choose|i: int, j: int|
            0 <= i < s.len() && 0 <= j < s.len() && i != j && s[i].spec_colliding(s[j]);
        if i < j {
            lemma_check_collision_symmetric(s[i], s[j]);
            assert(s[j].spec_colliding(s[i]));
            assert(spec_collision_before(s, j));
        } else {
            assert(spec_collision_before(s, i));
        }
    }
}

/// A nonempty query result pinpoints a colliding pair.
proof fn lemma_collisions_spec_hit(test: CollisionSphere, s: Seq<CollisionSphere>)
    requires
        collisions_spec(test, s).len() > 0,
    ensures
        exists|i: int| 0 <= i < s.len() && test.spec_colliding(s[i]),
    decreases s.len(),
{
    if s.len() > 0 {
        match test.check_collision_spec(s.last()) {
            Some(_) => {
                assert(test.spec_colliding(s[s.len() - 1]));
            },
            None => {
                lemma_collisions_spec_hit(test, s.drop_last());
                let i = choose|i: int| 0 <= i < s.drop_last().len() && test.spec_colliding(
                    s.drop_last()[i],
                );
                assert(test.spec_colliding(s[i]));
            },
        }
    }
}

/// A value below twice the modulus reduces to itself or to one subtraction.
proof fn lemma_mod_in_range(x: int, m: int)
    requires
        1 <= m,
        0 <= x < 2 * m,
    ensures
        x % m == if x < m {
            x
        } else {
            x - m
        },
{
    if x < m {
        vstd::arithmetic::div_mod::lemma_small_mod(x as nat, m as nat);
    } else {
        vstd::arithmetic::div_mod::lemma_mod_add_multiples_vanish(x - m, m);
        vstd::arithmetic::div_mod::lemma_small_mod((x - m) as nat, m as nat);
    }
}

/// The same-horseshoe partner relation is an involution: partners pair up.
pub proof fn lemma_same_horseshoe_involution(symmetry_count: u32, symmetry_index: u32)
    requires
        1 <= symmetry_count <= 0x3FFF_FFFF,
        symmetry_index < symmetry_count * 2,
    ensures
        0 <= spec_same_horseshoe_partner(symmetry_count, symmetry_index) < symmetry_count * 2,
        spec_same_horseshoe_partner(
            symmetry_count,
            spec_same_horseshoe_partner(symmetry_count, symmetry_index) as u32,
        ) == symmetry_index,
{
    let c2: int = symmetry_count * 2;
    let s: int = symmetry_index as int;
    if s % 2 == 0 {
        lemma_mod_in_range(s + 1, c2);
        lemma_mod_in_range(s, c2);
    } else {
        lemma_mod_in_range(s - 1, c2);
        lemma_mod_in_range(s, c2);
    }
}

/// The opposing-horseshoe partner relation is an involution.
pub proof fn lemma_opposing_horseshoe_involution(symmetry_count: u32, skip: u32, symmetry_index: u32)
    requires
        1 <= symmetry_count <= 0x3FFF_FFFF,
        skip < symmetry_count,
        symmetry_index < symmetry_count * 2,
    ensures
        0 <= spec_opposing_horseshoe_partner(symmetry_count, skip, symmetry_index) < symmetry_count
            * 2,
        spec_opposing_horseshoe_partner(
            symmetry_count,
            skip,
            spec_opposing_horseshoe_partner(symmetry_count, skip, symmetry_index) as u32,
        ) == symmetry_index,
{
    let c2: int = symmetry_count * 2;
    let s: int = symmetry_index as int;
    let k2: int = skip * 2;
    if s % 2 == 0 {
        let t: int = s + k2 + 1;
        lemma_mod_in_range(t, c2);
        let p: int = if t < c2 {
            t
        } else {
            t - c2
        };
        assert(p % 2 == 1);
        if t < c2 {
            lemma_mod_in_range(p + c2 - k2 - 1, c2);
        } else {
            lemma_mod_in_range(p + c2 - k2 - 1, c2);
        }
    } else {
        let t: int = s + c2 - k2 - 1;
        lemma_mod_in_range(t, c2);
        let p: int = if t < c2 {
            t
        } else {
            t - c2
        };
        assert(p % 2 == 0);
        lemma_mod_in_range(p + k2 + 1, c2);
    }
}

/// Branch connectivity is symmetric: if one branch's partner relations reach
/// a second branch, the second branch's partner relations reach the first.
pub proof fn lemma_connected_branches_symmetric(
    symmetry_count: u32,
    skip: u32,
    symmetry_index1: u32,
    symmetry_index2: u32,
)
    requires
        1 <= symmetry_count <= 0x3FFF_FFFF,
        skip < symmetry_count,
        symmetry_index1 < symmetry_count * 2,
        symmetry_index2 < symmetry_count * 2,
    ensures
        spec_connected_branches(symmetry_count, skip, symmetry_index1, symmetry_index2)
            == spec_connected_branches(symmetry_count, skip, symmetry_index2, symmetry_index1),
{
    lemma_same_horseshoe_involution(symmetry_count, symmetry_index1);
    lemma_same_horseshoe_involution(symmetry_count, symmetry_index2);
    lemma_opposing_horseshoe_involution(symmetry_count, skip, symmetry_index1);
    lemma_opposing_horseshoe_involution(symmetry_count, skip, symmetry_index2);
}

/// Protection does not depend on the order of the pair.
pub proof fn lemma_protected_symmetric(a: CollisionSphere, b: CollisionSphere)
    requires
        a.compatible(b),
    ensures
        a.spec_protected(b) == b.spec_protected(a),
{
    if a.symmetry_index != b.symmetry_index {
        lemma_connected_branches_symmetric(
            a.symmetry_count,
            a.skip,
            a.symmetry_index,
            b.symmetry_index,
        );
    }
}

/// The one-sided collision test reports a pair in either orientation or in
/// neither: scanning in placement order misses nothing.
pub proof fn lemma_check_collision_symmetric(a: CollisionSphere, b: CollisionSphere)
    requires
        a.compatible(b),
    ensures
        a.check_collision_spec(b) is Some <==> b.check_collision_spec(a) is Some,
{
    lemma_protected_symmetric(a, b);
    assert((b.x - a.x) * (b.x - a.x) == (a.x - b.x) * (a.x - b.x)) by (nonlinear_arith);
    assert((b.y - a.y) * (b.y - a.y) == (a.y - b.y) * (a.y - b.y)) by (nonlinear_arith);
    assert((b.z - a.z) * (b.z - a.z) == (a.z - b.z) * (a.z - b.z)) by (nonlinear_arith);
}

/// Protected relationships never report a collision, whatever the simulated
/// geometry: a point against its same-branch chain neighbor, against its
/// coinciding counterpart on a connected branch, or against that
/// counterpart's chain neighbor near a branch end, passes the test in both
/// orientations regardless of the spheres' positions.
pub proof fn lemma_neighbor_exclusion(a: CollisionSphere, b: CollisionSphere)
    requires
        a.compatible(b),
        a.spec_protected(b),
    ensures
        a.check_collision_spec(b) is None,
        b.check_collision_spec(a) is None,
{
    lemma_protected_symmetric(a, b);
}

/// Every pair that is not protected is subject to the ordinary
/// distance-based test: it reports a collision exactly when the balls
/// overlap.
pub proof fn lemma_unprotected_distance_test(a: CollisionSphere, b: CollisionSphere)
    requires
        a.compatible(b),
        !a.spec_protected(b),
    ensures
        a.check_collision_spec(b) == if a.spec_overlapping(b) {
            Some(b)
        } else {
            None::<CollisionSphere>
        },
{
}

/// An empty query result means no remembered sphere collides with the query.
proof fn lemma_collisions_spec_miss(test: CollisionSphere, s: Seq<CollisionSphere>)
    requires
        collisions_spec(test, s).len() == 0,
    ensures
        forall|i: int| 0 <= i < s.len() ==> !test.spec_colliding(#[trigger] s[i]),
    decreases s.len(),
{
    if s.len() > 0 {
        match test.check_collision_spec(s.last()) {
            Some(_) => {},
            None => {
                lemma_collisions_spec_miss(test, s.drop_last());
                assert forall|i: int| 0 <= i < s.len() implies !test.spec_colliding(
                    #[trigger] s[i],
                ) by {
                    if i < s.len() - 1 {
                        assert(s.drop_last()[i] == s[i]);
                    }
                }
            },
        }
    }
}

} // verus!

