//! The dihedral symmetry group of a knot model, in exact form.
//!
//! A candidate knot is assembled from `2 * count` symmetric copies of one
//! chain, under the dihedral group of order `2 * count` acting in three
//! dimensions: `count` rotations about the vertical axis, each optionally
//! followed by the half-turn ("flip") about the horizontal axis.  The
//! rotation angle of an element is always a whole number of `2π / count`
//! steps, so the group is carried here exactly, as a step count and a flip
//! flag; turning an element into a rigid rotation of space is a continuous
//! operation that lives outside this crate.

use vstd::prelude::*;

verus! {

/// One element of the dihedral group of order `2 * count`: a rotation by
/// `rotation` steps of `2π / count` about the vertical axis, followed by the
/// half-turn about the horizontal axis if `flipped` is set.
#[derive(Clone, Copy, Debug, PartialEq, Eq, Structural)]
pub struct SymmetryElement {
    pub rotation: u32,
    pub flipped: bool,
}

/// Membership of the group with `count` rotation steps.
pub open spec fn element_wf(e: SymmetryElement, count: u32) -> bool {
    e.rotation < count
}

/// The identity element: no rotation, no flip.
pub open spec fn spec_identity() -> SymmetryElement {
    SymmetryElement { rotation: 0, flipped: false }
}

/// The composition `a` after `b`: applying `b` first, then `a`.  A flip in
/// `a` conjugates the rotation of `b` into its inverse, and two flips
/// cancel.
pub open spec fn spec_compose(a: SymmetryElement, b: SymmetryElement, count: u32) -> SymmetryElement {
    if a.flipped {
        SymmetryElement {
            rotation: ((a.rotation + count - b.rotation) % (count as int)) as u32,
            flipped: !b.flipped,
        }
    } else {
        SymmetryElement {
            rotation: ((a.rotation + b.rotation) % (count as int)) as u32,
            flipped: b.flipped,
        }
    }
}

/// The inverse element: a flipped element is its own inverse, an unflipped
/// one rotates back.
pub open spec fn spec_inverse(e: SymmetryElement, count: u32) -> SymmetryElement {
    if e.flipped {
        e
    } else {
        SymmetryElement {
            rotation: ((count - e.rotation) % (count as int)) as u32,
            flipped: false,
        }
    }
}

/// The identity element of the group.
pub fn identity() -> (r: SymmetryElement)
    ensures
        r == spec_identity(),
{
    SymmetryElement { rotation: 0, flipped: false }
}

/// Compose two group elements: the result acts as `a` after `b`.
pub fn compose(a: SymmetryElement, b: SymmetryElement, count: u32) -> (r: SymmetryElement)
    requires
        1 <= count <= 0x7FFF_FFFF,
        element_wf(a, count),
        element_wf(b, count),
    ensures
        r == spec_compose(a, b, count),
        element_wf(r, count),
{
    if a.flipped {
        SymmetryElement { rotation: (a.rotation + count - b.rotation) % count, flipped: !b.flipped }
    } else {
        SymmetryElement { rotation: (a.rotation + b.rotation) % count, flipped: b.flipped }
    }
}

/// The inverse of a group element.
pub fn inverse(e: SymmetryElement, count: u32) -> (r: SymmetryElement)
    requires
        1 <= count,
        element_wf(e, count),
    ensures
        r == spec_inverse(e, count),
        element_wf(r, count),
{
    if e.flipped {
        e
    } else {
        SymmetryElement { rotation: (count - e.rotation) % count, flipped: false }
    }
}

/// Enumerate the dihedral symmetries in the order the assembly walks them:
/// each rotation step first upright, then flipped.
pub fn symmetries(count: u32) -> (r: Vec<SymmetryElement>)
    requires
        1 <= count <= 0x7FFF_FFFF,
    ensures
        r@.len() == 2 * count,
        forall|i: int|
            0 <= i < 2 * count ==> #[trigger] r@[i] == (SymmetryElement {
                rotation: (i / 2) as u32,
                flipped: i % 2 == 1,
            }),
{
    let mut result: Vec<SymmetryElement> = Vec::new();
    let mut k: u32 = 0;
    while k < count
        invariant
            k <= count,
            count <= 0x7FFF_FFFF,
            result@.len() == 2 * k,
            forall|i: int|
                0 <= i < 2 * k ==> #[trigger] result@[i] == (SymmetryElement {
                    rotation: (i / 2) as u32,
                    flipped: i % 2 == 1,
                }),
        decreases count - k,
    {
        result.push(SymmetryElement { rotation: k, flipped: false });
        result.push(SymmetryElement { rotation: k, flipped: true });
        k = k + 1;
    }
    result
}

/// The symmetry relating one copy of the chain to the neighboring copy its
/// far end must connect to: rotate by `skip` slices and flip.
pub fn adjacent_symmetry(count: u32, skip: u32) -> (r: SymmetryElement)
    requires
        1 <= count,
        skip < count,
    ensures
        r == (SymmetryElement { rotation: skip, flipped: true }),
        element_wf(r, count),
{
    SymmetryElement { rotation: skip, flipped: true }
}

/// The adjacent symmetry is one of the enumerated symmetries: for `skip`
/// slices it is entry `2 * skip + 1` of the enumeration.
pub proof fn lemma_adjacent_symmetry_enumerated(count: u32, skip: u32, all: Seq<SymmetryElement>)
    requires
        1 <= count <= 0x7FFF_FFFF,
        skip < count,
        all.len() == 2 * count,
        forall|i: int|
            0 <= i < 2 * count ==> #[trigger] all[i] == (SymmetryElement {
                rotation: (i / 2) as u32,
                flipped: i % 2 == 1,
            }),
    ensures
        all[2 * skip + 1] == (SymmetryElement { rotation: skip, flipped: true }),
{
    assert(all[2 * skip + 1] == SymmetryElement {
        rotation: ((2 * skip + 1) / 2) as u32,
        flipped: (2 * skip + 1) % 2 == 1,
    });
}

/// The enumeration lists the whole group, each element exactly once:
/// entries are pairwise distinct, and every element of the group with
/// `count` rotation steps is entry `2 * rotation + flip`.
pub proof fn lemma_symmetries_enumerate_group(count: u32, all: Seq<SymmetryElement>)
    requires
        1 <= count <= 0x7FFF_FFFF,
        all.len() == 2 * count,
        forall|i: int|
            0 <= i < 2 * count ==> #[trigger] all[i] == (SymmetryElement {
                rotation: (i / 2) as u32,
                flipped: i % 2 == 1,
            }),
    ensures
        forall|i: int, j: int| 0 <= i < j < all.len() ==> all[i] != all[j],
        forall|e: SymmetryElement|
            element_wf(e, count) ==> all[2 * e.rotation + (if e.flipped {
                1int
            } else {
                0int
            })] == e,
{
    assert forall|e: SymmetryElement| element_wf(e, count) implies all[2 * e.rotation + (if e.flipped {
        1int
    } else {
        0int
    })] == e by {
        let i: int = 2 * e.rotation + if e.flipped {
            1int
        } else {
            0int
        };
        assert(i / 2 == e.rotation);
        assert((i % 2 == 1) == e.flipped);
    }
}

/// Composing with the identity changes nothing, on either side.
pub proof fn lemma_identity_laws(e: SymmetryElement, count: u32)
    requires
        1 <= count,
        element_wf(e, count),
    ensures
        spec_compose(e, spec_identity(), count) == e,
        spec_compose(spec_identity(), e, count) == e,
{
    let m: int = count as int;
    let er: int = e.rotation as int;
    vstd::arithmetic::div_mod::lemma_small_mod(e.rotation as nat, count as nat);
    lemma_mod_shift(er, m);
}

/// Every element composes with its inverse to the identity, on either side.
pub proof fn lemma_inverse_law(e: SymmetryElement, count: u32)
    requires
        1 <= count,
        element_wf(e, count),
    ensures
        spec_compose(e, spec_inverse(e, count), count) == spec_identity(),
        spec_compose(spec_inverse(e, count), e, count) == spec_identity(),
{
    let c: int = count as int;
    vstd::arithmetic::div_mod::lemma_mod_self_0(c);
    vstd::arithmetic::div_mod::lemma_small_mod(0, count as nat);
    if e.flipped {
        assert((e.rotation + count - e.rotation) % c == 0);
    } else {
        if e.rotation == 0 {
            vstd::arithmetic::div_mod::lemma_small_mod(0, count as nat);
        } else {
            vstd::arithmetic::div_mod::lemma_small_mod((count - e.rotation) as nat, count as nat);
            assert((e.rotation + (count - e.rotation)) % c == 0);
            assert(((count - e.rotation) + e.rotation) % c == 0);
        }
    }
}

/// Reducing the left summand first does not change a residue.
proof fn lemma_mod_add_left(x: int, y: int, m: int)
    requires
        1 <= m,
    ensures
        ((x % m) + y) % m == (x + y) % m,
{
    vstd::arithmetic::div_mod::lemma_add_mod_noop(x % m, y, m);
    vstd::arithmetic::div_mod::lemma_mod_twice(x, m);
    vstd::arithmetic::div_mod::lemma_add_mod_noop(x, y, m);
}

/// Reducing a subtracted operand first does not change a residue.
proof fn lemma_mod_sub_right(x: int, y: int, m: int)
    requires
        1 <= m,
    ensures
        (x - (y % m)) % m == (x - y) % m,
{
    vstd::arithmetic::div_mod::lemma_sub_mod_noop(x, y % m, m);
    vstd::arithmetic::div_mod::lemma_mod_twice(y, m);
    vstd::arithmetic::div_mod::lemma_sub_mod_noop(x, y, m);
}

/// Shifting by the modulus does not change a residue.
proof fn lemma_mod_shift(x: int, m: int)
    requires
        1 <= m,
    ensures
        (x + m) % m == x % m,
{
    vstd::arithmetic::div_mod::lemma_mod_add_multiples_vanish(x, m);
}

/// Composition is associative.
pub proof fn lemma_compose_associative(
    a: SymmetryElement,
    b: SymmetryElement,
    c: SymmetryElement,
    count: u32,
)
    requires
        1 <= count,
        element_wf(a, count),
        element_wf(b, count),
        element_wf(c, count),
    ensures
        spec_compose(spec_compose(a, b, count), c, count) == spec_compose(
            a,
            spec_compose(b, c, count),
            count,
        ),
{
    let m: int = count as int;
    let ar: int = a.rotation as int;
    let br: int = b.rotation as int;
    let cr: int = c.rotation as int;
    if a.flipped {
        if b.flipped {
            // left: ((ar + m - br) % m + cr) % m; right: (ar + m - (br + m - cr) % m) % m
            lemma_mod_add_left(ar + m - br, cr, m);
            lemma_mod_sub_right(ar + m, br + m - cr, m);
            assert(ar + m - (br + m - cr) == ar - br + cr);
            lemma_mod_shift(ar - br + cr, m);
        } else {
            // left: ((ar + m - br) % m + m - cr) % m; right: (ar + m - (br + cr) % m) % m
            lemma_mod_add_left(ar + m - br, m - cr, m);
            lemma_mod_sub_right(ar + m, br + cr, m);
            lemma_mod_shift(ar + m - br - cr, m);
            assert(ar + m - br + (m - cr) == (ar + m - br - cr) + m);
        }
    } else {
        if b.flipped {
            // left: ((ar + br) % m + m - cr) % m; right: (ar + (br + m - cr) % m) % m
            lemma_mod_add_left(ar + br, m - cr, m);
            lemma_mod_add_left(br + m - cr, ar, m);
            assert(ar + ((br + m - cr) % m) == ((br + m - cr) % m) + ar);
        } else {
            // left: ((ar + br) % m + cr) % m; right: (ar + (br + cr) % m) % m
            lemma_mod_add_left(ar + br, cr, m);
            lemma_mod_add_left(br + cr, ar, m);
            assert(ar + ((br + cr) % m) == ((br + cr) % m) + ar);
        }
    }
}

} // verus!
