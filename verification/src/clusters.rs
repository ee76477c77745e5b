//! Bulk-data cluster suppression: many near-identical-length high-entropy
//! strings in one file are the signature of a serialized data array
//! (presets, samples, embedded assets) rather than of scattered secrets.

use vstd::prelude::*;
use vstd::relations::{sorted_by, total_ordering};
use vstd::seq_lib::lemma_sorted_unique;

verus! {

broadcast use vstd::seq_lib::group_to_multiset_ensures;

/// One string literal that scored as a likely secret, held back until the
/// whole file has been seen. `id` is the caller's handle on the literal;
/// `value_len` is the length of its value; `is_sensitive` records a
/// credential-like key name or a known secret prefix.
#[derive(Clone, Copy, Debug, PartialEq, Eq)]
pub struct Candidate {
    pub id: usize,
    pub value_len: usize,
    pub is_sensitive: bool,
}

/// Fewest same-length candidates that make a bulk cluster.
pub const CLUSTER_MIN_COUNT: usize = 6;

/// Ascending order on lengths.
pub open spec fn len_leq() -> spec_fn(usize, usize) -> bool {
    |a: usize, b: usize| a <= b
}

/// The candidates' value lengths, in candidate order.
pub open spec fn lengths(c: Seq<Candidate>) -> Seq<usize> {
    c.map_values(|x: Candidate| x.value_len)
}

/// The median length: the element at index `n / 2` of the lengths in
/// ascending order.
pub open spec fn median_length(c: Seq<Candidate>) -> usize {
    lengths(c).sort_by(len_leq())[(c.len() / 2) as int]
}

/// How far from the median a length may stray and still belong to the
/// cluster: 15% of the median (rounded down), but at least 1.
pub open spec fn tolerance(median: nat) -> nat {
    if (15 * median) / 100 >= 1 {
        (15 * median) / 100
    } else {
        1
    }
}

pub open spec fn abs_diff(a: nat, b: nat) -> nat {
    if a >= b {
        (a - b) as nat
    } else {
        (b - a) as nat
    }
}

/// `len` lies within the tolerance of `median`.
pub open spec fn in_band(len: nat, median: nat) -> bool {
    abs_diff(len, median) <= tolerance(median)
}

/// How many candidates lie in the band around `median`.
pub open spec fn in_band_count(c: Seq<Candidate>, median: nat) -> nat
    decreases c.len(),
{
    if c.len() == 0 {
        0
    } else {
        in_band_count(c.drop_last(), median) + if in_band(c.last().value_len as nat, median) {
            1nat
        } else {
            0nat
        }
    }
}

/// The candidates to report: an empty list stays empty; otherwise, when at
/// least [`CLUSTER_MIN_COUNT`] candidates lie within the band around the
/// median length and none of those carries a sensitive key or prefix, the
/// in-band candidates are dropped and the rest kept in order; otherwise all
/// are kept.
pub open spec fn is_bulk_cluster(c: Seq<Candidate>) -> bool {
    let m = median_length(c) as nat;
    &&& c.len() > 0
    &&& in_band_count(c, m) >= CLUSTER_MIN_COUNT
    &&& forall|i: int| 0 <= i < c.len() && in_band(#[trigger] c[i].value_len as nat, m) ==> !c[i].is_sensitive
}

/// The candidates that survive removing the band around `median`: those
/// outside it, and sensitive ones.
pub open spec fn outside_band(c: Seq<Candidate>, median: nat) -> Seq<Candidate>
    decreases c.len(),
{
    if c.len() == 0 {
        Seq::empty()
    } else {
        let prev = outside_band(c.drop_last(), median);
        if !in_band(c.last().value_len as nat, median) || c.last().is_sensitive {
            prev.push(c.last())
        } else {
            prev
        }
    }
}

pub open spec fn suppressed(c: Seq<Candidate>) -> Seq<Candidate> {
    if is_bulk_cluster(c) {
        outside_band(c, median_length(c) as nat)
    } else {
        c
    }
}

/// Whether a candidate survives removing the band around `median`: it lies
/// outside the band, or it is sensitive.
pub open spec fn survives_band(median: nat) -> spec_fn(Candidate) -> bool {
    |x: Candidate| !in_band(x.value_len as nat, median) || x.is_sensitive
}

proof fn lemma_outside_band_is_filter(c: Seq<Candidate>, median: nat)
    ensures
        outside_band(c, median) == c.filter(survives_band(median)),
    decreases c.len(),
{
    reveal(Seq::filter);
    if c.len() > 0 {
        lemma_outside_band_is_filter(c.drop_last(), median);
    }
}

proof fn lemma_in_band_count_bounded(c: Seq<Candidate>, median: nat)
    ensures
        in_band_count(c, median) <= c.len(),
    decreases c.len(),
{
    if c.len() > 0 {
        lemma_in_band_count_bounded(c.drop_last(), median);
    }
}

/// Suppression only ever removes candidates and keeps the rest in their
/// input order: the result is either the input itself or the input
/// filtered down to the candidates outside the band around the median
/// length, together with the sensitive ones.
pub proof fn law_suppression_filters_in_order(c: Seq<Candidate>)
    ensures
        suppressed(c) == c || suppressed(c) == c.filter(survives_band(median_length(c) as nat)),
        suppressed(c).len() <= c.len(),
{
    broadcast use vstd::seq_lib::group_filter_ensures;

    lemma_outside_band_is_filter(c, median_length(c) as nat);
}

/// A candidate carrying a sensitive key name or a known secret prefix is
/// never suppressed.
pub proof fn law_sensitive_candidates_survive(c: Seq<Candidate>, i: int)
    requires
        0 <= i < c.len(),
        c[i].is_sensitive,
    ensures
        suppressed(c).contains(c[i]),
{
    broadcast use vstd::seq_lib::group_filter_ensures;

    let m = median_length(c) as nat;
    lemma_outside_band_is_filter(c, m);
    assert(survives_band(m)(c[i]));
}

/// Every candidate that suppression drops lies within the band around the
/// median length and is not sensitive.
pub proof fn law_dropped_candidates_are_plain_and_in_band(c: Seq<Candidate>, i: int)
    requires
        0 <= i < c.len(),
        !suppressed(c).contains(c[i]),
    ensures
        in_band(c[i].value_len as nat, median_length(c) as nat),
        !c[i].is_sensitive,
        is_bulk_cluster(c),
{
    broadcast use vstd::seq_lib::group_filter_ensures;

    let m = median_length(c) as nat;
    lemma_outside_band_is_filter(c, m);
    if !is_bulk_cluster(c) {
        assert(c.contains(c[i]));
    } else if survives_band(m)(c[i]) {
        assert(c.filter(survives_band(m)).contains(c[i]));
    }
}

/// Fewer than [`CLUSTER_MIN_COUNT`] candidates never form a cluster: they
/// are all kept, so a lone secret is always reported.
pub proof fn law_small_batches_are_kept(c: Seq<Candidate>)
    requires
        c.len() < CLUSTER_MIN_COUNT,
    ensures
        suppressed(c) == c,
{
    lemma_in_band_count_bounded(c, median_length(c) as nat);
}

/// Whether a batch is a bulk cluster depends only on the candidates in the
/// band around the median length: when at least [`CLUSTER_MIN_COUNT`]
/// candidates lie within `max(floor(15% of the median), 1)` of it and none
/// of those is sensitive, every candidate in the band is dropped and every
/// candidate outside it is kept, sensitive or not.
pub proof fn law_plain_bands_are_dropped_whatever_lies_outside(c: Seq<Candidate>)
    requires
        ({
            let m = median_length(c) as int;
            let tol = if (15 * m) / 100 >= 1 {
                (15 * m) / 100
            } else {
                1
            };
            &&& in_band_count(c, m as nat) >= CLUSTER_MIN_COUNT
            &&& forall|i: int|
                0 <= i < c.len() && -tol <= (#[trigger] c[i]).value_len - m <= tol
                    ==> !c[i].is_sensitive
        }),
    ensures
        ({
            let m = median_length(c) as int;
            let tol = if (15 * m) / 100 >= 1 {
                (15 * m) / 100
            } else {
                1
            };
            &&& forall|i: int|
                0 <= i < c.len() && -tol <= (#[trigger] c[i]).value_len - m <= tol
                    ==> !suppressed(c).contains(c[i])
            &&& forall|i: int|
                0 <= i < c.len() && !(-tol <= (#[trigger] c[i]).value_len - m <= tol)
                    ==> suppressed(c).contains(c[i])
        }),
{
    broadcast use vstd::seq_lib::group_filter_ensures;

    let m = median_length(c) as nat;
    assert(c.len() > 0) by {
        if c.len() == 0 {
            assert(in_band_count(c, m) == 0);
        }
    }
    assert(is_bulk_cluster(c));
    lemma_outside_band_is_filter(c, m);
    let f = c.filter(survives_band(m));
    assert forall|i: int|
        0 <= i < c.len() && in_band(c[i].value_len as nat, m) implies !f.contains(c[i]) by {
        if f.contains(c[i]) {
            let j = choose|j: int| 0 <= j < f.len() && f[j] == c[i];
            assert(survives_band(m)(f[j]));
        }
    }
    assert forall|i: int|
        0 <= i < c.len() && !in_band(c[i].value_len as nat, m) implies f.contains(c[i]) by {
        assert(survives_band(m)(c[i]));
    }
}

proof fn lemma_len_leq_total()
    ensures
        total_ordering(len_leq()),
{
}

/// The lengths of `c` in ascending order.
fn sorted_lengths(c: &Vec<Candidate>) -> (s: Vec<usize>)
    ensures
        s@ == lengths(c@).sort_by(len_leq()),
{
    let mut s: Vec<usize> = Vec::new();
    let mut i: usize = 0;
    while i < c.len()
        invariant
            i <= c.len(),
            s@.len() == i,
            sorted_by(s@, len_leq()),
            s@.to_multiset() == lengths(c@).take(i as int).to_multiset(),
        decreases c.len() - i,
    {
        let x = c[i].value_len;
        let mut pos: usize = 0;
        while pos < s.len() && s[pos] <= x
            invariant
                pos <= s.len(),
                forall|k: int| 0 <= k < pos ==> s@[k] <= x,
            decreases s.len() - pos,
        {
            pos += 1;
        }
        let ghost old_s = s@;
        proof {
            if pos < s.len() {
                assert forall|k: int| pos <= k < old_s.len() implies x < old_s[k] by {
                    assert(len_leq()(old_s[pos as int], old_s[k]) || k == pos);
                }
            }
        }
        s.insert(pos, x);
        proof {
            assert(s@ == old_s.insert(pos as int, x));
            assert forall|a: int, b: int| 0 <= a < b < s@.len() implies #[trigger] len_leq()(
                s@[a],
                s@[b],
            ) by {
                if b < pos {
                    assert(len_leq()(old_s[a], old_s[b]));
                } else if b == pos {
                } else if a < pos {
                    assert(s@[b] == old_s[b - 1]);
                } else if a == pos {
                    assert(s@[b] == old_s[b - 1]);
                } else {
                    assert(len_leq()(old_s[a - 1], old_s[b - 1]));
                }
            }
            vstd::seq_lib::to_multiset_insert(old_s, pos as int, x);
            let l = lengths(c@);
            assert(l.take(i + 1) =~= l.take(i as int).push(x));
            vstd::seq_lib::to_multiset_build(l.take(i as int), x);
        }
        i += 1;
    }
    proof {
        let l = lengths(c@);
        assert(l.take(c.len() as int) =~= l);
        l.lemma_sort_by_ensures(len_leq());
        lemma_len_leq_total();
        lemma_sorted_unique(s@, l.sort_by(len_leq()), len_leq());
    }
    s
}

} // verus!

verus! {

proof fn lemma_fifteen_percent(m: nat)
    ensures
        (15 * m) / 100 == 15 * (m / 100) + (15 * (m % 100)) / 100,
{
    let q = m / 100;
    let r = m % 100;
    assert(m == 100 * q + r) by (nonlinear_arith)
        requires
            q == m / 100,
            r == m % 100,
    ;
    assert(15 * m == 100 * (15 * q) + 15 * r) by (nonlinear_arith)
        requires
            m == 100 * q + r,
    ;
    assert((100 * (15 * q) + 15 * r) / 100 == 15 * q + (15 * r) / 100) by (nonlinear_arith)
        requires
            0 <= r < 100,
            q >= 0,
    ;
}

/// The tolerance around `median`, computed without overflow.
fn tolerance_of(median: usize) -> (t: usize)
    ensures
        t == tolerance(median as nat),
{
    proof {
        lemma_fifteen_percent(median as nat);
    }
    let t = (median / 100) * 15 + ((median % 100) * 15) / 100;
    if t >= 1 {
        t
    } else {
        1
    }
}

fn is_in_band(len: usize, median: usize, tol: usize) -> (b: bool)
    requires
        tol == tolerance(median as nat),
    ensures
        b == in_band(len as nat, median as nat),
{
    let d = if len >= median {
        len - median
    } else {
        median - len
    };
    d <= tol
}

/// Many near-identical-length high-entropy strings in one file is the
/// signature of a serialized data array (presets, samples, embedded
/// assets) rather than of scattered secrets — a real credential leak does
/// not usually arrive in a block of dozens of same-shaped values. When a
/// file has at least [`CLUSTER_MIN_COUNT`] candidates whose lengths fall
/// within 15% (at least 1) of the group's median, and none of them carry a
/// sensitive key name or a known secret prefix, the whole cluster is
/// suppressed rather than reported one-by-one.
///
/// The band is computed in integers: for every length a string in memory
/// can have, `|len - median| <= max(median * 0.15, 1)` holds exactly when
/// `|len - median| <= max(floor(15 * median / 100), 1)`.
pub fn suppress_bulk_data_clusters(candidates: Vec<Candidate>) -> (r: Vec<Candidate>)
    ensures
        r@ == suppressed(candidates@),
{
    if candidates.len() == 0 {
        return candidates;
    }
    let sorted = sorted_lengths(&candidates);
    proof {
        lengths(candidates@).lemma_sort_by_ensures(len_leq());
        assert(lengths(candidates@).sort_by(len_leq()).to_multiset().len() == candidates@.len());
    }
    let median = sorted[candidates.len() / 2];
    let tol = tolerance_of(median);
    let ghost m = median as nat;
    let mut count: usize = 0;
    let mut all_plain = true;
    let mut i: usize = 0;
    while i < candidates.len()
        invariant
            i <= candidates.len(),
            m == median as nat,
            tol == tolerance(m),
            count == in_band_count(candidates@.take(i as int), m),
            count <= i,
            all_plain == forall|k: int|
                0 <= k < i && in_band(#[trigger] candidates@[k].value_len as nat, m)
                    ==> !candidates@[k].is_sensitive,
        decreases candidates.len() - i,
    {
        let c = candidates[i];
        assert(candidates@.take(i + 1).drop_last() =~= candidates@.take(i as int));
        let inside = is_in_band(c.value_len, median, tol);
        if inside {
            count += 1;
            if c.is_sensitive {
                all_plain = false;
            }
        }
        i += 1;
    }
    assert(candidates@.take(candidates.len() as int) =~= candidates@);
    if !(count >= CLUSTER_MIN_COUNT && all_plain) {
        return candidates;
    }
    let mut kept: Vec<Candidate> = Vec::new();
    let mut j: usize = 0;
    while j < candidates.len()
        invariant
            j <= candidates.len(),
            tol == tolerance(m),
            m == median as nat,
            kept@ == outside_band(candidates@.take(j as int), m),
        decreases candidates.len() - j,
    {
        let c = candidates[j];
        assert(candidates@.take(j + 1).drop_last() =~= candidates@.take(j as int));
        if !is_in_band(c.value_len, median, tol) || c.is_sensitive {
            kept.push(c);
        }
        j += 1;
    }
    assert(candidates@.take(candidates.len() as int) =~= candidates@);
    kept
}

} // verus!
