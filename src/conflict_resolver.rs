//! Deterministic resolution of overlapping candidates.

use vstd::prelude::*;
use crate::detector::{CandidateMatch, CandidateView, spans_follow, views};
use crate::ordering::{insert_index, lemma_order_prefix, order_prefix, stable_sort, stable_sorted};
use crate::replacement_engine::non_overlapping;

verus! {

/// Resolves overlapping matches deterministically.
pub struct ConflictResolver;

/// Walks `s` from position `k`, keeping a candidate when it starts at or
/// after `last_end`, the end of the last one kept.
pub open spec fn keep_from(s: Seq<CandidateView>, k: int, last_end: int) -> Seq<CandidateView>
    decreases s.len() - k,
{
    if k >= s.len() {
        seq![]
    } else if s[k].span.start >= last_end {
        seq![s[k]] + keep_from(s, k + 1, s[k].span.end as int)
    } else {
        keep_from(s, k + 1, last_end)
    }
}

/// The candidates kept: the walk over the resolution order.
pub open spec fn resolved(s: Seq<CandidateView>) -> Seq<CandidateView> {
    keep_from(stable_sorted(true, s), 0, 0)
}

/// Every kept candidate starts at or after `last_end`, each ends no later
/// than the next starts, and each is one of `s[k..]`.
pub proof fn lemma_keep_from(s: Seq<CandidateView>, k: int, last_end: int)
    requires
        0 <= k <= s.len(),
        forall|i: int| 0 <= i < s.len() ==> (#[trigger] s[i]).span.start <= s[i].span.end,
    ensures
        keep_from(s, k, last_end).len() <= s.len() - k,
        forall|i: int|
            0 <= i < keep_from(s, k, last_end).len() ==> (#[trigger] keep_from(s, k, last_end)[i]).span.start
                >= last_end,
        forall|i: int|
            0 <= i < keep_from(s, k, last_end).len() - 1 ==> #[trigger] spans_follow(
                keep_from(s, k, last_end),
                i,
            ),
        forall|i: int|
            0 <= i < keep_from(s, k, last_end).len() ==> exists|j: int|
                k <= j < s.len() && #[trigger] keep_from(s, k, last_end)[i] == s[j],
    decreases s.len() - k,
{
    if k < s.len() {
        if s[k].span.start >= last_end {
            let e = s[k].span.end as int;
            lemma_keep_from(s, k + 1, e);
            let rest = keep_from(s, k + 1, e);
            let r = keep_from(s, k, last_end);
            assert(r == seq![s[k]] + rest);
            assert forall|i: int| 0 <= i < r.len() implies (#[trigger] r[i]).span.start >= last_end by {
                if i > 0 {
                    assert(r[i] == rest[i - 1]);
                }
            }
            assert forall|i: int| 0 <= i < r.len() - 1 implies #[trigger] spans_follow(r, i) by {
                if i > 0 {
                    assert(r[i] == rest[i - 1]);
                    assert(r[i + 1] == rest[i]);
                    assert(spans_follow(rest, i - 1));
                } else {
                    assert(r[1] == rest[0]);
                }
            }
            assert forall|i: int| 0 <= i < r.len() implies exists|j: int|
                k <= j < s.len() && #[trigger] r[i] == s[j] by {
                if i > 0 {
                    assert(r[i] == rest[i - 1]);
                    let j = choose|j: int| k + 1 <= j < s.len() && #[trigger] rest[i - 1] == s[j];
                } else {
                    assert(r[0] == s[k]);
                }
            }
        } else {
            lemma_keep_from(s, k + 1, last_end);
            let r = keep_from(s, k, last_end);
            assert forall|i: int| 0 <= i < r.len() implies exists|j: int|
                k <= j < s.len() && #[trigger] r[i] == s[j] by {
                let j = choose|j: int| k + 1 <= j < s.len() && #[trigger] r[i] == s[j];
            }
        }
    }
}

proof fn lemma_kept_from_input(c: Seq<CandidateMatch>, a: Seq<CandidateMatch>)
    requires
        forall|i: int| 0 <= i < c.len() ==> (#[trigger] c[i]).span.start <= c[i].span.end,
        views(a) == keep_from(stable_sorted(true, views(c)), 0, 0),
    ensures
        forall|i: int| 0 <= i < a.len() - 1 ==> #[trigger] spans_follow(views(a), i),
        forall|i: int|
            0 <= i < a.len() ==> exists|j: int| 0 <= j < c.len() && (#[trigger] a[i])@ == (#[trigger] c[j])@,
{
    let s = views(c);
    let n0 = s.len() as int;
    let o = stable_sorted(true, s);
    lemma_order_prefix(true, s, n0);
    let p = order_prefix(true, s, n0);
    assert forall|i: int| 0 <= i < o.len() implies (#[trigger] o[i]).span.start <= o[i].span.end by {
        assert(o[i] == s[p[i]]);
        assert(s[p[i]] == c[p[i]]@);
    }
    lemma_keep_from(o, 0, 0);
    let kept = keep_from(o, 0, 0);
    assert forall|i: int| 0 <= i < a.len() implies exists|j: int|
        0 <= j < c.len() && (#[trigger] a[i])@ == (#[trigger] c[j])@ by {
        assert(a[i]@ == kept[i]);
        let t = choose|t: int| 0 <= t < o.len() && #[trigger] kept[i] == o[t];
        assert(o[t] == s[p[t]]);
        assert(s[p[t]] == c[p[t]]@);
    }
}

/// Spans that each end no later than the next starts do not overlap.
pub proof fn lemma_chain_non_overlapping(s: Seq<CandidateView>)
    requires
        forall|i: int| 0 <= i < s.len() ==> (#[trigger] s[i]).span.start <= s[i].span.end,
        forall|i: int| 0 <= i < s.len() - 1 ==> #[trigger] spans_follow(s, i),
    ensures
        forall|i: int, j: int| 0 <= i < j < s.len() ==> (#[trigger] s[i]).span.end <= (#[trigger] s[j]).span.start,
        non_overlapping(s),
{
    assert forall|i: int, j: int| 0 <= i < j < s.len() implies (#[trigger] s[i]).span.end <= (
    #[trigger] s[j]).span.start by {
        lemma_chain_between(s, i, j);
    }
}

proof fn lemma_chain_between(s: Seq<CandidateView>, i: int, j: int)
    requires
        0 <= i < j < s.len(),
        forall|k: int| 0 <= k < s.len() ==> (#[trigger] s[k]).span.start <= s[k].span.end,
        forall|k: int| 0 <= k < s.len() - 1 ==> #[trigger] spans_follow(s, k),
    ensures
        s[i].span.end <= s[j].span.start,
    decreases j - i,
{
    assert(spans_follow(s, i));
    if j > i + 1 {
        lemma_chain_between(s, i + 1, j);
    }
}

/// Each kept candidate is one of the candidates, and each kept span ends
/// no later than the next one starts.
pub proof fn lemma_resolved_from(s: Seq<CandidateView>)
    requires
        forall|i: int| 0 <= i < s.len() ==> (#[trigger] s[i]).span.start <= s[i].span.end,
    ensures
        forall|i: int|
            0 <= i < resolved(s).len() ==> exists|j: int|
                0 <= j < s.len() && #[trigger] resolved(s)[i] == s[j],
        forall|i: int| 0 <= i < resolved(s).len() - 1 ==> #[trigger] spans_follow(resolved(s), i),
{
    let n0 = s.len() as int;
    let o = stable_sorted(true, s);
    lemma_order_prefix(true, s, n0);
    let p = order_prefix(true, s, n0);
    assert forall|i: int| 0 <= i < o.len() implies (#[trigger] o[i]).span.start <= o[i].span.end by {
        assert(o[i] == s[p[i]]);
    }
    lemma_keep_from(o, 0, 0);
    let kept = resolved(s);
    assert forall|i: int| 0 <= i < kept.len() implies exists|j: int|
        0 <= j < s.len() && #[trigger] kept[i] == s[j] by {
        let t = choose|t: int| 0 <= t < o.len() && #[trigger] kept[i] == o[t];
        assert(o[t] == s[p[t]]);
    }
}

/// The `i`-th candidate starts before the next one.
pub open spec fn starts_increase(s: Seq<CandidateView>, i: int) -> bool {
    s[i].span.start < s[i + 1].span.start
}

/// An index order that keeps every index in place.
proof fn lemma_order_prefix_identity(s: Seq<CandidateView>, n: int)
    requires
        0 <= n <= s.len(),
        forall|i: int| 0 <= i < s.len() - 1 ==> #[trigger] starts_increase(s, i),
    ensures
        order_prefix(false, s, n) == Seq::new(n as nat, |i: int| i),
    decreases n,
{
    if n > 0 {
        lemma_order_prefix_identity(s, n - 1);
        let t = order_prefix(false, s, n - 1);
        if n >= 2 {
            assert(t.last() == n - 2);
            assert(starts_increase(s, n - 2));
        }
        assert(insert_index(false, s, t, n - 1) == t.push(n - 1));
        assert(t.push(n - 1) =~= Seq::new(n as nat, |i: int| i));
    }
}

/// What resolution keeps is pairwise disjoint; when no candidate span is
/// empty, it is also strictly increasing in start, and ordering it by
/// position leaves it as it is.
pub proof fn lemma_resolved_ordered(s: Seq<CandidateView>)
    requires
        forall|i: int| 0 <= i < s.len() ==> (#[trigger] s[i]).span.start < s[i].span.end,
    ensures
        forall|i: int, j: int|
            0 <= i < j < resolved(s).len() ==> (#[trigger] resolved(s)[i]).span.end
                <= (#[trigger] resolved(s)[j]).span.start && resolved(s)[i].span.start
                < resolved(s)[j].span.start,
        stable_sorted(false, resolved(s)) == resolved(s),
{
    let n0 = s.len() as int;
    let o = stable_sorted(true, s);
    let p = order_prefix(true, s, n0);
    lemma_order_prefix(true, s, n0);
    assert forall|i: int| 0 <= i < o.len() implies (#[trigger] o[i]).span.start < o[i].span.end by {
        assert(o[i] == s[p[i]]);
    }
    lemma_keep_from(o, 0, 0);
    let r = resolved(s);
    assert forall|i: int| 0 <= i < r.len() implies (#[trigger] r[i]).span.start < r[i].span.end by {
        let t = choose|t: int| 0 <= t < o.len() && #[trigger] r[i] == o[t];
    }
    lemma_chain_non_overlapping(r);
    assert forall|i: int, j: int| 0 <= i < j < r.len() implies (#[trigger] r[i]).span.end
        <= (#[trigger] r[j]).span.start && r[i].span.start < r[j].span.start by {
        assert(r[i].span.start < r[i].span.end);
    }
    assert forall|i: int| 0 <= i < r.len() - 1 implies #[trigger] starts_increase(r, i) by {
        assert(spans_follow(r, i));
        assert(r[i].span.start < r[i].span.end);
    }
    lemma_order_prefix_identity(r, r.len() as int);
    assert(stable_sorted(false, r) =~= r);
}

impl ConflictResolver {
    /// Orders the candidates by start ascending, length descending,
    /// priority descending and detector identifier ascending, then keeps
    /// each one that starts at or after the end of the last one kept.
    pub fn resolve(candidates: Vec<CandidateMatch>) -> (r: Vec<CandidateMatch>)
        requires
            forall|i: int|
                0 <= i < candidates@.len() ==> (#[trigger] candidates@[i]).span.start
                    <= candidates@[i].span.end,
        ensures
            views(r@) == resolved(views(candidates@)),
            r@.len() <= candidates@.len(),
            forall|i: int| 0 <= i < r@.len() - 1 ==> #[trigger] spans_follow(views(r@), i),
            forall|i: int|
                0 <= i < r@.len() ==> exists|j: int|
                    0 <= j < candidates@.len() && (#[trigger] r@[i])@ == (#[trigger] candidates@[j])@,
    {
        let ghost s = views(candidates@);
        let ghost n0 = s.len() as int;
        let sorted = stable_sort(true, candidates);
        let ghost o = stable_sorted(true, s);
        let n = sorted.len();
        let mut sorted = sorted;
        let mut rev: Vec<CandidateMatch> = Vec::new();
        let ghost sorted0 = sorted@;
        while sorted.len() > 0
            invariant
                sorted@.len() + rev@.len() == n,
                n == sorted0.len(),
                forall|k: int| 0 <= k < sorted@.len() ==> sorted@[k] == sorted0[k],
                forall|k: int| 0 <= k < rev@.len() ==> rev@[k] == sorted0[n - 1 - k],
            decreases sorted@.len(),
        {
            let x = sorted.pop().unwrap();
            rev.push(x);
        }
        let mut accepted: Vec<CandidateMatch> = Vec::new();
        let mut last_end: usize = 0;
        let mut k: usize = 0;
        while k < n
            invariant
                n == sorted0.len(),
                views(sorted0) == o,
                k <= n,
                rev@.len() == n - k,
                accepted@.len() <= k,
                n == candidates@.len(),
                forall|t: int| 0 <= t < rev@.len() ==> rev@[t] == sorted0[n - 1 - t],
                views(accepted@) + keep_from(o, k as int, last_end as int) == keep_from(o, 0, 0),
            decreases n - k,
        {
            let c = rev.pop().unwrap();
            assert(c@ == o[k as int]);
            let ghost before = views(accepted@);
            if c.span.start >= last_end {
                last_end = c.span.end;
                accepted.push(c);
                assert(views(accepted@) == before.push(o[k as int]));
            }
            assert(views(accepted@) + keep_from(o, k + 1, last_end as int) =~= keep_from(o, 0, 0));
            k += 1;
        }
        proof {
            assert(views(accepted@) =~= keep_from(o, 0, 0));
            lemma_kept_from_input(candidates@, accepted@);
        }
        accepted
    }
}

} // verus!
