use vstd::prelude::*;
use vstd::set_lib::{set_int_range, lemma_int_range, lemma_subset_equality};
use vstd::seq_lib::seq_to_set_is_finite;
use crate::hand::HandResult;

verus! {

/// The strength of each hand, in order.
pub open spec fn strengths(rs: Seq<HandResult>) -> Seq<nat> {
    rs.map_values(|h: HandResult| h.category.strength())
}

/// `perm` lists the positions of `s` once each, strongest first, equal strengths keeping
/// their order.
pub open spec fn is_stable_ranking(s: Seq<nat>, perm: Seq<int>) -> bool {
    &&& perm.len() == s.len()
    &&& forall|i: int| 0 <= i < perm.len() ==> 0 <= #[trigger] perm[i] < s.len()
    &&& perm.no_duplicates()
    &&& forall|i: int, j: int| 0 <= i < j < perm.len() ==> s[perm[i]] >= s[perm[j]]
    &&& forall|i: int, j: int|
        0 <= i < j < perm.len() && s[perm[i]] == s[perm[j]] ==> perm[i] < perm[j]
}

/// Orders hands from strongest to weakest category; hands of equal strength keep their
/// relative order.
pub fn rank(results: Vec<HandResult>) -> (r: Vec<HandResult>)
    requires
        forall|i: int| 0 <= i < results@.len() ==> #[trigger] results@[i].wf(),
    ensures
        exists|perm: Seq<int>|
            is_stable_ranking(strengths(results@), perm)
                && r@ == perm.map_values(|i: int| results@[i]),
        forall|i: int| 0 <= i < r@.len() ==> #[trigger] r@[i].wf(),
        forall|i: int| 0 <= i < r@.len() - 1
            ==> #[trigger] r@[i].category.strength() >= r@[i + 1].category.strength(),
{
    let ghost orig = results@;
    let ghost n = orig.len();
    let ghost s = strengths(orig);
    let mut remaining = results;
    let mut out: Vec<HandResult> = Vec::new();
    let ghost mut rem_idx: Seq<int> = Seq::new(n, |i: int| i);
    let ghost mut out_idx: Seq<int> = Seq::empty();
    while remaining.len() > 0
        invariant
            n == orig.len(),
            s == strengths(orig),
            forall|i: int| 0 <= i < n ==> #[trigger] orig[i].wf(),
            remaining@.len() == rem_idx.len(),
            out@.len() == out_idx.len(),
            out_idx.len() + rem_idx.len() == n,
            forall|q: int| 0 <= q < rem_idx.len() ==> remaining@[q] == orig[#[trigger] rem_idx[q]],
            forall|a: int| 0 <= a < out_idx.len() ==> out@[a] == orig[#[trigger] out_idx[a]],
            forall|q: int| 0 <= q < rem_idx.len() ==> 0 <= #[trigger] rem_idx[q] < n,
            forall|a: int| 0 <= a < out_idx.len() ==> 0 <= #[trigger] out_idx[a] < n,
            forall|q1: int, q2: int| 0 <= q1 < q2 < rem_idx.len() ==> rem_idx[q1] < rem_idx[q2],
            out_idx.no_duplicates(),
            forall|a: int, q: int| 0 <= a < out_idx.len() && 0 <= q < rem_idx.len()
                ==> out_idx[a] != rem_idx[q],
            forall|a: int, b: int| 0 <= a < b < out_idx.len() ==> s[out_idx[a]] >= s[out_idx[b]],
            forall|a: int, q: int| 0 <= a < out_idx.len() && 0 <= q < rem_idx.len()
                ==> s[out_idx[a]] >= s[rem_idx[q]],
            forall|a: int, b: int| 0 <= a < b < out_idx.len() && s[out_idx[a]] == s[out_idx[b]]
                ==> out_idx[a] < out_idx[b],
            forall|a: int, q: int| 0 <= a < out_idx.len() && 0 <= q < rem_idx.len()
                && s[out_idx[a]] == s[rem_idx[q]] ==> out_idx[a] < rem_idx[q],
        decreases remaining@.len(),
    {
        assert(remaining@[0] == orig[rem_idx[0]]);
        assert(orig[rem_idx[0]].wf());
        let mut p: usize = 0;
        let mut best = remaining[0].category.strength_value();
        let mut q: usize = 1;
        while q < remaining.len()
            invariant
                1 <= q <= remaining@.len(),
                p < q,
                remaining@.len() == rem_idx.len(),
                forall|t: int| 0 <= t < rem_idx.len() ==> remaining@[t] == orig[#[trigger] rem_idx[t]],
                forall|t: int| 0 <= t < rem_idx.len() ==> 0 <= #[trigger] rem_idx[t] < n,
                forall|i: int| 0 <= i < n ==> #[trigger] orig[i].wf(),
                s == strengths(orig),
                n == orig.len(),
                best as nat == s[rem_idx[p as int]],
                forall|t: int| 0 <= t < q ==> s[#[trigger] rem_idx[t]] <= best,
                forall|t: int| 0 <= t < p ==> s[#[trigger] rem_idx[t]] < best,
            decreases remaining@.len() - q,
        {
            assert(remaining@[q as int] == orig[rem_idx[q as int]]);
            assert(orig[rem_idx[q as int]].wf());
            let v = remaining[q].category.strength_value();
            if v > best {
                p = q;
                best = v;
            }
            q = q + 1;
        }
        let h = remaining.remove(p);
        out.push(h);
        proof {
            let i0 = rem_idx[p as int];
            let old_rem = rem_idx;
            let old_out = out_idx;
            rem_idx = rem_idx.remove(p as int);
            out_idx = out_idx.push(i0);
            assert forall|a: int, q2: int| 0 <= a < out_idx.len() && 0 <= q2 < rem_idx.len()
                && s[out_idx[a]] == s[rem_idx[q2]] implies out_idx[a] < rem_idx[q2] by {
                if q2 < p {
                    assert(rem_idx[q2] == old_rem[q2]);
                } else {
                    assert(rem_idx[q2] == old_rem[q2 + 1]);
                }
                if a < old_out.len() {
                    assert(out_idx[a] == old_out[a]);
                }
            }
            assert forall|a: int, q2: int| 0 <= a < out_idx.len() && 0 <= q2 < rem_idx.len()
                implies s[out_idx[a]] >= s[rem_idx[q2]] && out_idx[a] != rem_idx[q2] by {
                if q2 < p {
                    assert(rem_idx[q2] == old_rem[q2]);
                } else {
                    assert(rem_idx[q2] == old_rem[q2 + 1]);
                }
                if a < old_out.len() {
                    assert(out_idx[a] == old_out[a]);
                }
            }
            assert forall|a: int, b: int| 0 <= a < b < out_idx.len()
                implies s[out_idx[a]] >= s[out_idx[b]] && (s[out_idx[a]] == s[out_idx[b]]
                ==> out_idx[a] < out_idx[b]) by {
                assert(out_idx[a] == old_out[a]);
                if b < old_out.len() {
                    assert(out_idx[b] == old_out[b]);
                }
            }
            assert forall|a: int, b: int| 0 <= a < out_idx.len() && 0 <= b < out_idx.len() && a != b
                implies out_idx[a] != out_idx[b] by {
                if a < old_out.len() {
                    assert(out_idx[a] == old_out[a]);
                }
                if b < old_out.len() {
                    assert(out_idx[b] == old_out[b]);
                }
            }
            assert forall|t: int| 0 <= t < rem_idx.len() implies remaining@[t] == orig[#[trigger] rem_idx[t]]
                && 0 <= rem_idx[t] < n by {
                if t < p {
                    assert(rem_idx[t] == old_rem[t]);
                } else {
                    assert(rem_idx[t] == old_rem[t + 1]);
                }
            }
            assert forall|q1: int, q2: int| 0 <= q1 < q2 < rem_idx.len() implies rem_idx[q1] < rem_idx[q2] by {
                if q1 < p {
                    assert(rem_idx[q1] == old_rem[q1]);
                } else {
                    assert(rem_idx[q1] == old_rem[q1 + 1]);
                }
                if q2 < p {
                    assert(rem_idx[q2] == old_rem[q2]);
                } else {
                    assert(rem_idx[q2] == old_rem[q2 + 1]);
                }
            }
            assert forall|a: int| 0 <= a < out_idx.len() implies out@[a] == orig[#[trigger] out_idx[a]]
                && 0 <= out_idx[a] < n by {
                if a < old_out.len() {
                    assert(out_idx[a] == old_out[a]);
                }
            }
        }
    }
    proof {
        let perm = out_idx;
        assert(out@ =~= perm.map_values(|i: int| orig[i]));
        assert forall|i: int| 0 <= i < out@.len() - 1
            implies #[trigger] out@[i].category.strength() >= out@[i + 1].category.strength() by {
            assert(s[perm[i]] >= s[perm[i + 1]]);
        }
        assert(is_stable_ranking(s, perm));
    }
    out
}

/// A stable ranking lists every position.
proof fn lemma_ranking_covers(s: Seq<nat>, perm: Seq<int>, x: int)
    requires
        is_stable_ranking(s, perm),
        0 <= x < s.len(),
    ensures
        perm.contains(x),
{
    broadcast use seq_to_set_is_finite;
    perm.unique_seq_to_set();
    lemma_int_range(0, s.len() as int);
    assert(perm.to_set().subset_of(set_int_range(0, s.len() as int)));
    lemma_subset_equality(perm.to_set(), set_int_range(0, s.len() as int));
    assert(set_int_range(0, s.len() as int).contains(x));
}

proof fn lemma_ranking_prefix(s: Seq<nat>, p1: Seq<int>, p2: Seq<int>, k: int)
    requires
        is_stable_ranking(s, p1),
        is_stable_ranking(s, p2),
        0 <= k <= p1.len(),
    ensures
        forall|a: int| 0 <= a < k ==> p1[a] == p2[a],
    decreases k,
{
    if k > 0 {
        lemma_ranking_prefix(s, p1, p2, k - 1);
        let a = k - 1;
        let x = p1[a];
        let y = p2[a];
        if x != y {
            lemma_ranking_covers(s, p2, x);
            lemma_ranking_covers(s, p1, y);
            let b = choose|b: int| 0 <= b < p2.len() && p2[b] == x;
            let c = choose|c: int| 0 <= c < p1.len() && p1[c] == y;
            if b < a {
                assert(p1[b] == x);
            } else if c < a {
                assert(p2[c] == y);
            } else {
                assert(b > a && c > a);
                assert(s[x] >= s[y]);
                assert(s[y] >= s[x]);
                assert(x < y);
                assert(y < x);
            }
        }
    }
}

/// The ranked order is determined by the strengths alone: two stable rankings of the same
/// strengths are the same sequence, so ranking the same hands twice gives the same order.
pub proof fn lemma_ranking_unique(s: Seq<nat>, p1: Seq<int>, p2: Seq<int>)
    requires
        is_stable_ranking(s, p1),
        is_stable_ranking(s, p2),
    ensures
        p1 == p2,
{
    lemma_ranking_prefix(s, p1, p2, p1.len() as int);
    assert(p1 =~= p2);
}

} // verus!
