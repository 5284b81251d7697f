//! What holds of every marker set, stated over its state.

use crate::keys::{bits_of, fraction_of, key_of, observed, INFINITE, SIGN};
use crate::markers::{ascending, climbing, desired, first_above, lags, leads, InvalidMarker, State};
use crate::quantile::quantile_targets;
use vstd::prelude::*;

verus! {

/// From `from` on, every height below the index that `first_above` gives is
/// at most `x`, and the height at that index exceeds `x` unless the index is
/// the last.
pub proof fn first_above_is_first(q: Seq<i64>, x: i64, from: int)
    requires
        0 <= from <= q.len() - 1,
    ensures
        from <= first_above(q, x, from) <= q.len() - 1,
        forall|j: int| from <= j < first_above(q, x, from) ==> q[j] <= x,
        first_above(q, x, from) < q.len() - 1 ==> x < q[first_above(q, x, from)],
    decreases q.len() - from,
{
    if from < q.len() - 1 && x >= q[from] {
        first_above_is_first(q, x, from + 1);
    }
}

/// The bucket of `x` in a ready set is an interval that holds `x`: with `x`
/// below the minimum the first, with `x` at or above the last interior
/// marker the last, and otherwise the one whose left marker is at most `x`
/// and whose right marker exceeds it.
pub proof fn bucket_holds(s: State, x: i64)
    requires
        s.wf(),
        s.ready(),
    ensures
        1 <= s.bucket(x) <= s.len() - 1,
        x < s.heights[0] ==> s.bucket(x) == 1,
        s.heights[s.len() - 2] <= x ==> s.bucket(x) == s.len() - 1,
        s.heights[0] <= x < s.heights[s.len() - 2] ==> s.heights[s.bucket(x) - 1] <= x < s.heights[s.bucket(x)],
{
    first_above_is_first(s.heights, x, 1);
    let k = s.bucket(x);
    if x < s.heights[0] {
        assert(s.heights[0] <= s.heights[1]);
    }
    if s.heights[s.len() - 2] <= x && k < s.len() - 1 {
        assert(s.heights[k] <= s.heights[s.len() - 2]);
    }
}

/// A marker is due to move exactly when it is a full rank or more away from
/// its desired position and the neighbour on that side is more than one rank
/// away: up when the desired position is ahead, down when it is behind.
pub proof fn due_when_a_full_rank_off(n: Seq<usize>, target: u64, scale: u64, i: int)
    requires
        1 <= i <= n.len() - 2,
    ensures
        lags(n, target, scale, i) <==> desired(n, target, scale) - scale * n[i] >= scale && n[i + 1] - n[i]
            > 1,
        leads(n, target, scale, i) <==> desired(n, target, scale) - scale * n[i] <= -scale && n[i]
            - n[i - 1] > 1,
{
}

/// Each observation moves the desired position of a marker on by its target
/// fraction.
pub proof fn desired_moves_by_target(before: Seq<usize>, after: Seq<usize>, target: u64, scale: u64)
    requires
        before.len() > 0,
        after.len() > 0,
        after.last() == before.last() + 1,
    ensures
        desired(after, target, scale) == desired(before, target, scale) + target,
{
    assert((before.last() + 1 - 1) * target == (before.last() - 1) * target + target)
        by (nonlinear_arith);
}

/// With five observations counted, the markers of the quantile `p = num /
/// den` are wanted at 1, 1 + 2p, 1 + 4p, 3 + 2p and 5.
pub proof fn quantile_starts_spread(n: Seq<usize>, num: u64, den: u64)
    requires
        n.len() == 5,
        n.last() == 5,
        0 < num < den,
        2 * den <= u64::MAX,
    ensures
        ({
            let t = quantile_targets(num, den);
            let s = (2 * den) as u64;
            &&& desired(n, t[0], s) == s
            &&& desired(n, t[1], s) == s + 4 * num
            &&& desired(n, t[2], s) == s + 8 * num
            &&& desired(n, t[3], s) == 3 * s + 4 * num
            &&& desired(n, t[4], s) == 5 * s
        }),
{
}

/// After an addition to a ready set the heights ascend and the counts climb
/// from one; no count has fallen, and the last has grown by one.
pub proof fn addition_keeps_order(before: State, after: State, x: i64)
    requires
        before.wf(),
        before.ready(),
        after.wf(),
        after.follows(before, x),
    ensures
        ascending(after.heights),
        climbing(after.positions),
        after.positions[0] == 1,
        forall|i: int| 0 <= i < before.len() ==> before.positions[i] <= #[trigger] after.positions[i],
        after.total() == before.total() + 1,
{
}

/// The observation that completes a set leaves the heights in ascending
/// order and the last count at the number of markers, which is the number of
/// observations stored.
pub proof fn completion_counts_all(before: State, after: State, x: i64)
    requires
        before.wf(),
        before.remaining == 1,
        after.seeded(before, x),
    ensures
        after.ready(),
        ascending(after.heights),
        after.total() == before.len(),
{
    assert(after.positions.last() == before.positions[before.len() - 1]);
}

/// The observation that completes a set decides its state: two states that
/// both hold the stored observations in ascending order are the same.
pub proof fn completion_is_decided(before: State, one: State, other: State, x: i64)
    requires
        one.seeded(before, x),
        other.seeded(before, x),
    ensures
        one == other,
{
    let leq = |a: i64, b: i64| a <= b;
    assert(vstd::relations::total_ordering(leq));
    assert(vstd::relations::sorted_by(one.heights, leq));
    assert(vstd::relations::sorted_by(other.heights, leq));
    vstd::seq_lib::lemma_sorted_unique(one.heights, other.heights, leq);
}

/// A set that is not ready reads nothing at every marker that it has: no
/// height, and a count of zero.
pub proof fn unready_reads_nothing(s: State, marker: usize)
    requires
        s.wf(),
        !s.ready(),
        1 <= marker <= s.len(),
    ensures
        s.estimate(marker) == Ok::<Option<i64>, InvalidMarker>(None),
        s.count(marker) == Ok::<usize, InvalidMarker>(0),
{
}

/// A marker below one or above the number of markers is refused, ready or
/// not.
pub proof fn outside_marker_refused(s: State, marker: usize)
    requires
        s.wf(),
        marker == 0 || marker > s.len(),
    ensures
        s.estimate(marker) is Err,
        s.count(marker) is Err,
{
}

/// A set that has been cleared cannot be told from one newly made with the
/// same targets and scale: the two are in the same state, which is well
/// formed, at rest and not ready, so that every query and every addition
/// gives the same on both.
pub proof fn cleared_is_new(used: State, cleared: State, made: State)
    requires
        used.wf(),
        cleared == State::initial(used.targets, used.scale),
        made == State::initial(used.targets, used.scale),
    ensures
        cleared == made,
        cleared.wf(),
        cleared.rested(),
        cleared.remaining == used.len(),
        forall|marker: usize| cleared.estimate(marker) == made.estimate(marker),
        forall|marker: usize| cleared.count(marker) == made.count(marker),
        forall|x: i64| cleared.stored(x) == made.stored(x),
{
    assert forall|i: int| 1 <= i <= cleared.len() - 2 implies !#[trigger] leads(
        cleared.positions,
        cleared.targets[i],
        cleared.scale,
        i,
    ) by {
        assert(cleared.positions[i] - cleared.positions[i - 1] == 1);
    }
}

/// A key gives back the bits that it was made of, and every key is the key
/// of the bits that it gives.
pub proof fn keys_give_back(b: u64, k: i64)
    ensures
        i64::MIN <= key_of(b) <= i64::MAX,
        bits_of(key_of(b) as i64) == b,
        0 <= bits_of(k) <= u64::MAX,
        key_of(bits_of(k) as u64) == k,
{
}

/// Keys order as the numbers do: two numbers without the sign bit by their
/// magnitudes, two with it against their magnitudes, and one with it below
/// one without.
pub proof fn keys_order_as_numbers(a: u64, b: u64)
    ensures
        a < SIGN && b < SIGN ==> (key_of(a) < key_of(b) <==> a < b),
        a >= SIGN && b >= SIGN ==> (key_of(a) < key_of(b) <==> a > b),
        a >= SIGN && b < SIGN ==> key_of(a) < key_of(b),
        key_of(a) == key_of(b) <==> a == b,
{
}

/// Only what is no number makes no observation: every zero, every finite
/// number and both infinities make one.
pub proof fn numbers_are_observed(b: u64)
    ensures
        observed(b) is None <==> (if b < SIGN { b > INFINITE } else { b - SIGN > INFINITE }),
        b == 0 || b == SIGN ==> observed(b) == Some(0i64),
{
}

/// A fraction read from bits lies strictly between 0 and 1, and twice its
/// denominator fits the machine word.
pub proof fn fractions_are_proper(b: u32)
    requires
        fraction_of(b) is Some,
    ensures
        0 < fraction_of(b).unwrap().0 < fraction_of(b).unwrap().1,
        2 * fraction_of(b).unwrap().1 <= u64::MAX,
{
    let exponent = (b / 0x80_0000) as nat;
    vstd::arithmetic::power2::lemma2_to64();
    vstd::arithmetic::power2::lemma2_to64_rest();
    if 150 - exponent > 24 {
        vstd::arithmetic::power2::lemma_pow2_strictly_increases(24, (150 - exponent) as nat);
    }
    if 150 - exponent < 62 {
        vstd::arithmetic::power2::lemma_pow2_strictly_increases((150 - exponent) as nat, 62);
    }
}

} // verus!
