//! Exhaustive discrete search: enumeration of angle combinations and
//! NaN-safe ranking of the candidate knots they produce.
//!
//! The search tries every assignment of one of `num_angles` discrete angles
//! to each of a fixed number of joints.  Each trial index below
//! `num_angles ^ num_joints` decodes to one combination; an outside solver
//! turns the combination into a placed candidate with a cost (carried here
//! as an `f64` bit pattern) and a validity flag, and the ranking below keeps
//! the cheapest valid candidates.

use vstd::prelude::*;
use vstd::arithmetic::power::pow;
use crate::nan_order::{nan_le, nan_greatest_le, lemma_nan_le_total, lemma_nan_le_trans};
use crate::symmetry_adjust::Vars;

verus! {

broadcast use {vstd::seq_lib::group_to_multiset_ensures, vstd::multiset::group_multiset_axioms};

/// One candidate knot produced by a search trial: the discrete angle chosen
/// for each joint, the solved closure placement, the cost of that placement
/// (an `f64` bit pattern), and whether the candidate passed the geometric
/// validity checks.
#[derive(Clone, Debug)]
pub struct Knot {
    pub angles: Vec<u32>,
    pub symmetry_adjust: Vars,
    pub cost_bits: u64,
    pub good_candidate: bool,
}

/// The value of a little-endian digit sequence in the given base: digit `k`
/// counts with weight `base ^ k`.
pub open spec fn digits_value(s: Seq<u32>, base: int) -> int
    decreases s.len(),
{
    if s.len() == 0 {
        0
    } else {
        s[0] + base * digits_value(s.drop_first(), base)
    }
}

/// Appending a digit adds it with the weight of the next place.
proof fn lemma_digits_value_push(s: Seq<u32>, base: int, d: u32)
    ensures
        digits_value(s.push(d), base) == digits_value(s, base) + d * pow(base, s.len() as nat),
    decreases s.len(),
{
    reveal(pow);
    if s.len() == 0 {
        assert(s.push(d).drop_first() =~= Seq::<u32>::empty());
        assert(digits_value(Seq::<u32>::empty(), base) == 0);
        assert(digits_value(s.push(d), base) == d + base * 0);
        assert(pow(base, 0) == 1);
    } else {
        assert(s.push(d).drop_first() =~= s.drop_first().push(d));
        lemma_digits_value_push(s.drop_first(), base, d);
        let p: int = pow(base, (s.len() - 1) as nat);
        assert(pow(base, s.len() as nat) == base * p);
        assert(base * (digits_value(s.drop_first(), base) + d * p) == base * digits_value(
            s.drop_first(),
            base,
        ) + d * (base * p)) by (nonlinear_arith);
    }
}

/// Decode trial `index` of the exhaustive enumeration into one discrete
/// angle per joint: the little-endian base-`num_angles` digits of `index`.
pub fn angles_for_index(num_angles: u32, num_joints: usize, index: u64) -> (r: Vec<u32>)
    requires
        1 <= num_angles,
        index < pow(num_angles as int, num_joints as nat),
    ensures
        r@.len() == num_joints,
        forall|k: int| 0 <= k < num_joints ==> r@[k] < num_angles,
        digits_value(r@, num_angles as int) == index,
{
    let base: u64 = num_angles as u64;
    let mut result: Vec<u32> = Vec::new();
    let mut remaining: u64 = index;
    let mut place: usize = 0;
    proof {
        reveal(pow);
        assert(pow(num_angles as int, 0) == 1);
    }
    while place < num_joints
        invariant
            1 <= num_angles,
            base == num_angles,
            place <= num_joints,
            result@.len() == place,
            forall|k: int| 0 <= k < place ==> result@[k] < num_angles,
            index == digits_value(result@, num_angles as int) + remaining * pow(
                num_angles as int,
                place as nat,
            ),
            remaining < pow(num_angles as int, (num_joints - place) as nat),
        decreases num_joints - place,
    {
        let ghost prev = result@;
        let ghost prev_remaining = remaining as int;
        let ghost b: int = num_angles as int;
        let ghost p: int = pow(b, place as nat);
        let digit: u32 = (remaining % base) as u32;
        result.push(digit);
        remaining = remaining / base;
        proof {
            reveal(pow);
            lemma_digits_value_push(prev, b, digit);
            vstd::arithmetic::div_mod::lemma_fundamental_div_mod(prev_remaining, b);
            assert(prev_remaining == digit + b * (remaining as int));
            assert(pow(b, (place + 1) as nat) == b * p);
            assert((digit + b * (remaining as int)) * p == digit * p + (remaining as int) * (b
                * p)) by (nonlinear_arith);
            let ghost q: int = pow(b, (num_joints - place - 1) as nat);
            assert(pow(b, (num_joints - place) as nat) == b * q);
            assert(prev_remaining < b * q && prev_remaining == digit + b * (remaining as int) && 0
                <= digit && 0 <= remaining as int && 1 <= b ==> remaining < q) by (nonlinear_arith);
        }
        place = place + 1;
    }
    proof {
        reveal(pow);
        assert(pow(num_angles as int, 0) == 1);
    }
    result
}

/// A digit sequence in range denotes a value below `base ^ len`: every
/// combination of discrete angles is reached by some trial index.
pub proof fn lemma_digits_value_bound(s: Seq<u32>, base: int)
    requires
        1 <= base,
        forall|k: int| 0 <= k < s.len() ==> s[k] < base,
    ensures
        0 <= digits_value(s, base) < pow(base, s.len() as nat),
    decreases s.len(),
{
    reveal(pow);
    if s.len() == 0 {
    } else {
        lemma_digits_value_bound(s.drop_first(), base);
        let rest: int = digits_value(s.drop_first(), base);
        let p: int = pow(base, (s.len() - 1) as nat);
        assert(s[0] + base * rest < base * p) by (nonlinear_arith)
            requires
                s[0] < base,
                0 <= s[0],
                rest < p,
                0 <= rest,
                1 <= base,
        ;
        assert(0 <= base * rest) by (nonlinear_arith)
            requires
                0 <= rest,
                1 <= base,
        ;
    }
}

/// Two distinct digit sequences of one length denote distinct values:
/// no two trial indices decode to the same combination.
pub proof fn lemma_digits_value_injective(s: Seq<u32>, t: Seq<u32>, base: int)
    requires
        1 <= base,
        s.len() == t.len(),
        forall|k: int| 0 <= k < s.len() ==> s[k] < base,
        forall|k: int| 0 <= k < t.len() ==> t[k] < base,
        digits_value(s, base) == digits_value(t, base),
    ensures
        s =~= t,
    decreases s.len(),
{
    if s.len() > 0 {
        let v: int = digits_value(s, base);
        let s_rest: int = digits_value(s.drop_first(), base);
        let t_rest: int = digits_value(t.drop_first(), base);
        assert((s[0] + base * s_rest) % base == s[0]) by {
            vstd::arithmetic::div_mod::lemma_mod_multiples_vanish(s_rest, s[0] as int, base);
            vstd::arithmetic::div_mod::lemma_small_mod(s[0] as nat, base as nat);
        }
        assert((t[0] + base * t_rest) % base == t[0]) by {
            vstd::arithmetic::div_mod::lemma_mod_multiples_vanish(t_rest, t[0] as int, base);
            vstd::arithmetic::div_mod::lemma_small_mod(t[0] as nat, base as nat);
        }
        assert(s[0] == t[0]);
        assert(base * s_rest == base * t_rest);
        assert(s_rest == t_rest) by (nonlinear_arith)
            requires
                base * s_rest == base * t_rest,
                1 <= base,
        ;
        lemma_digits_value_injective(s.drop_first(), t.drop_first(), base);
        assert forall|k: int| 0 <= k < s.len() implies s[k] == t[k] by {
            if k > 0 {
                assert(s.drop_first()[k - 1] == t.drop_first()[k - 1]);
            }
        }
    }
}

/// A candidate sequence ranked best-first: costs ascend in the NaN-greatest
/// order, so NaN costs sink to the end.
pub open spec fn sorted_by_cost(s: Seq<Knot>) -> bool {
    forall|i: int, j: int| 0 <= i < j < s.len() ==> nan_le(s[i].cost_bits, s[j].cost_bits)
}

/// Whether a candidate passed the geometric validity checks.
pub open spec fn is_good(k: Knot) -> bool {
    k.good_candidate
}

/// The validity predicate as a value, so that every mention of the filter
/// below denotes one and the same function.
pub open spec fn good_pred() -> spec_fn(Knot) -> bool {
    |k: Knot| is_good(k)
}

/// Keep only the candidates that passed the validity checks, in order.
pub fn good_candidates(knots: Vec<Knot>) -> (r: Vec<Knot>)
    ensures
        r@ =~= knots@.filter(good_pred()),
{
    let ghost orig = knots@;
    let mut knots = knots;
    let mut result: Vec<Knot> = Vec::new();
    let ghost mut i: int = 0;
    while knots.len() > 0
        invariant
            0 <= i,
            i + knots@.len() == orig.len(),
            knots@ =~= orig.skip(i),
            result@ =~= orig.take(i).filter(good_pred()),
        decreases knots@.len(),
    {
        let ghost prev_take = orig.take(i);
        let x = knots.remove(0);
        proof {
            assert(x == orig[i]);
            assert(orig.skip(i).skip(1) =~= orig.skip(i + 1));
        }
        let keep = x.good_candidate;
        if keep {
            result.push(x);
        }
        proof {
            reveal(Seq::filter);
            assert(orig.take(i + 1).drop_last() =~= prev_take);
            assert(orig.take(i + 1).last() == orig[i]);
            i = i + 1;
        }
    }
    proof {
        assert(orig.take(orig.len() as int) =~= orig);
    }
    result
}

/// Index of a cheapest element of a nonempty candidate list, under the
/// NaN-greatest order.
fn argmin_cost(knots: &Vec<Knot>) -> (r: usize)
    requires
        knots@.len() > 0,
    ensures
        r < knots@.len(),
        forall|m: int|
            0 <= m < knots@.len() ==> nan_le(knots@[r as int].cost_bits, knots@[m].cost_bits),
{
    let mut best: usize = 0;
    let mut k: usize = 1;
    while k < knots.len()
        invariant
            1 <= k <= knots@.len(),
            best < k,
            forall|m: int| 0 <= m < k ==> nan_le(knots@[best as int].cost_bits, knots@[m].cost_bits),
        decreases knots@.len() - k,
    {
        let ghost old_best = best as int;
        if nan_greatest_le(knots[k].cost_bits, knots[best].cost_bits) {
            best = k;
            proof {
                assert forall|m: int| 0 <= m < k + 1 implies nan_le(
                    knots@[best as int].cost_bits,
                    knots@[m].cost_bits,
                ) by {
                    if m < k {
                        lemma_nan_le_trans(
                            knots@[best as int].cost_bits,
                            knots@[old_best].cost_bits,
                            knots@[m].cost_bits,
                        );
                    }
                }
            }
        } else {
            proof {
                lemma_nan_le_total(knots@[k as int].cost_bits, knots@[best as int].cost_bits);
            }
        }
        k = k + 1;
    }
    best
}

/// Sort candidates by cost, cheapest first, NaN costs last.  The result is a
/// rearrangement of the input: the multisets of candidates agree.
pub fn sort_by_cost(knots: Vec<Knot>) -> (r: Vec<Knot>)
    ensures
        sorted_by_cost(r@),
        r@.to_multiset() =~= knots@.to_multiset(),
        r@.len() == knots@.len(),
{
    let ghost original = knots@;
    let mut input = knots;
    let mut out: Vec<Knot> = Vec::new();
    while input.len() > 0
        invariant
            sorted_by_cost(out@),
            out@.to_multiset().add(input@.to_multiset()) =~= original.to_multiset(),
            out@.len() + input@.len() == original.len(),
            forall|i: int, j: int|
                0 <= i < out@.len() && 0 <= j < input@.len() ==> nan_le(
                    out@[i].cost_bits,
                    input@[j].cost_bits,
                ),
        decreases input@.len(),
    {
        let ghost prev_input = input@;
        let ghost prev_out = out@;
        let j = argmin_cost(&input);
        let x = input.remove(j);
        out.push(x);
        proof {
            assert(prev_input.contains(x)) by {
                assert(prev_input[j as int] == x);
            }
            assert(prev_input.remove(j as int).to_multiset() =~= prev_input.to_multiset().remove(
                x,
            ));
            assert(prev_out.push(x).to_multiset() =~= prev_out.to_multiset().insert(x));
            assert(out@.to_multiset().add(input@.to_multiset()) =~= original.to_multiset());
            assert forall|i: int, jj: int|
                0 <= i < out@.len() && 0 <= jj < input@.len() implies nan_le(
                out@[i].cost_bits,
                input@[jj].cost_bits,
            ) by {
                let orig_jj: int = if jj < j { jj } else { jj + 1 };
                assert(input@[jj] == prev_input[orig_jj]);
            }
        }
    }
    out
}

/// Rank the outcome of an exhaustive search: keep only valid candidates,
/// sort them cheapest-first under the NaN-greatest order, and truncate to
/// `keep_count` survivors.  Every candidate that was dropped despite being
/// valid costs at least as much as every survivor.
pub fn rank_knots(knots: Vec<Knot>, keep_count: usize) -> (r: Vec<Knot>)
    ensures
        sorted_by_cost(r@),
        forall|i: int| 0 <= i < r@.len() ==> is_good(#[trigger] r@[i]),
        r@.len() == vstd::math::min(knots@.filter(good_pred()).len() as int, keep_count as int),
        r@.to_multiset().subset_of(knots@.filter(good_pred()).to_multiset()),
        forall|x: Knot|
            knots@.filter(good_pred()).to_multiset().count(x) > #[trigger] r@.to_multiset().count(
                x,
            ) ==> forall|i: int|
                0 <= i < r@.len() ==> nan_le(#[trigger] r@[i].cost_bits, x.cost_bits),
{
    let ghost orig = knots@;
    let good = good_candidates(knots);
    let ghost good_seq = good@;
    let mut sorted = sort_by_cost(good);
    let ghost full = sorted@;
    let m: usize = if keep_count <= sorted.len() {
        keep_count
    } else {
        sorted.len()
    };
    sorted.truncate(m);
    proof {
        assert(sorted@ =~= full.take(m as int));
        assert(full =~= full.take(m as int) + full.skip(m as int));
        vstd::seq_lib::lemma_multiset_commutative(full.take(m as int), full.skip(m as int));
        assert(full.to_multiset() =~= sorted@.to_multiset().add(full.skip(m as int).to_multiset()));
        assert forall|i: int| 0 <= i < sorted@.len() implies is_good(#[trigger] sorted@[i]) by {
            assert(full[i] == sorted@[i]);
            assert(full.to_multiset().count(full[i]) > 0) by {
                assert(full.contains(full[i]));
            }
            assert(good_seq.to_multiset().count(full[i]) > 0);
            assert(good_seq.contains(full[i]));
            let w = choose|w: int| 0 <= w < good_seq.len() && good_seq[w] == full[i];
            orig.lemma_filter_pred(good_pred(), w);
        }
        assert forall|x: Knot|
            orig.filter(good_pred()).to_multiset().count(x)
                > #[trigger] sorted@.to_multiset().count(x) implies forall|i: int|
            0 <= i < sorted@.len() ==> nan_le(#[trigger] sorted@[i].cost_bits, x.cost_bits) by {
            assert(full.skip(m as int).to_multiset().count(x) > 0);
            assert(full.skip(m as int).contains(x));
            let w = choose|w: int|
                0 <= w < full.skip(m as int).len() && full.skip(m as int)[w] == x;
            assert(full[m + w] == x);
            assert forall|i: int| 0 <= i < sorted@.len() implies nan_le(
                #[trigger] sorted@[i].cost_bits,
                x.cost_bits,
            ) by {
                assert(full[i] == sorted@[i]);
                assert(nan_le(full[i].cost_bits, full[m + w].cost_bits));
            }
        }
    }
    sorted
}

} // verus!
