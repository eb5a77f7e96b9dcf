//! Stable ordering of candidates, by position or by resolution priority.

use vstd::prelude::*;
use crate::detector::{CandidateMatch, CandidateView, views};
use crate::text::bytes_of;

verus! {

/// Byte-wise lexicographic order, the order of `str`.
pub open spec fn bytes_le(x: Seq<u8>, y: Seq<u8>) -> bool
    decreases x.len(),
{
    if x.len() == 0 {
        true
    } else if y.len() == 0 {
        false
    } else if x[0] != y[0] {
        x[0] < y[0]
    } else {
        bytes_le(x.drop_first(), y.drop_first())
    }
}

pub open spec fn span_len(c: CandidateView) -> int {
    c.span.end - c.span.start
}

/// `a` may precede `b` in text order: earlier start, then earlier end.
pub open spec fn position_le(a: CandidateView, b: CandidateView) -> bool {
    ||| a.span.start < b.span.start
    ||| (a.span.start == b.span.start && a.span.end <= b.span.end)
}

/// `a` may precede `b` in resolution order: start ascending, length
/// descending, priority descending, detector identifier ascending.
pub open spec fn resolution_le(a: CandidateView, b: CandidateView) -> bool {
    ||| a.span.start < b.span.start
    ||| (a.span.start == b.span.start && span_len(a) > span_len(b))
    ||| (a.span.start == b.span.start && span_len(a) == span_len(b) && a.priority > b.priority)
    ||| (a.span.start == b.span.start && span_len(a) == span_len(b) && a.priority == b.priority
        && bytes_le(bytes_of(a.detector_id), bytes_of(b.detector_id)))
}

pub open spec fn order_le(by_resolution: bool, a: CandidateView, b: CandidateView) -> bool {
    if by_resolution {
        resolution_le(a, b)
    } else {
        position_le(a, b)
    }
}

/// Places index `i` into the index order `t`: after every index whose
/// element may precede element `i`, and before the trailing ones that may not.
pub open spec fn insert_index(by_resolution: bool, s: Seq<CandidateView>, t: Seq<int>, i: int) -> Seq<
    int,
>
    decreases t.len(),
{
    if t.len() == 0 || order_le(by_resolution, s[t.last()], s[i]) {
        t.push(i)
    } else {
        insert_index(by_resolution, s, t.drop_last(), i).push(t.last())
    }
}

/// The stable order of the first `n` elements of `s`, as indices.
pub open spec fn order_prefix(by_resolution: bool, s: Seq<CandidateView>, n: int) -> Seq<int>
    decreases n,
{
    if n <= 0 {
        seq![]
    } else {
        insert_index(by_resolution, s, order_prefix(by_resolution, s, n - 1), n - 1)
    }
}

/// The elements of `s` in stable order.
pub open spec fn stable_sorted(by_resolution: bool, s: Seq<CandidateView>) -> Seq<CandidateView> {
    order_prefix(by_resolution, s, s.len() as int).map_values(|k: int| s[k])
}

proof fn lemma_insert_index_at(by_resolution: bool, s: Seq<CandidateView>, t: Seq<int>, i: int, j: int)
    requires
        0 <= j <= t.len(),
        forall|k: int| j <= k < t.len() ==> !order_le(by_resolution, s[#[trigger] t[k]], s[i]),
        j > 0 ==> order_le(by_resolution, s[t[j - 1]], s[i]),
    ensures
        insert_index(by_resolution, s, t, i) == t.insert(j, i),
    decreases t.len(),
{
    if t.len() == j {
        assert(t.insert(j, i) =~= t.push(i));
    } else {
        assert(!order_le(by_resolution, s[t[t.len() - 1]], s[i]));
        lemma_insert_index_at(by_resolution, s, t.drop_last(), i, j);
        assert(t.insert(j, i) =~= t.drop_last().insert(j, i).push(t.last()));
    }
}

proof fn lemma_insert_index_shape(by_resolution: bool, s: Seq<CandidateView>, t: Seq<int>, i: int)
    ensures
        exists|j: int|
            0 <= j <= t.len() && insert_index(by_resolution, s, t, i) == t.insert(j, i) && (forall|k: int|
                j <= k < t.len() ==> !order_le(by_resolution, s[#[trigger] t[k]], s[i])) && (j > 0
                ==> order_le(by_resolution, s[t[j - 1]], s[i])),
    decreases t.len(),
{
    if t.len() == 0 || order_le(by_resolution, s[t.last()], s[i]) {
        let j = t.len() as int;
        assert(t.insert(j, i) =~= t.push(i));
        assert(insert_index(by_resolution, s, t, i) == t.insert(j, i));
    } else {
        let u = t.drop_last();
        lemma_insert_index_shape(by_resolution, s, u, i);
        let j = choose|j: int|
            0 <= j <= u.len() && insert_index(by_resolution, s, u, i) == u.insert(j, i) && (forall|
                k: int,
            | j <= k < u.len() ==> !order_le(by_resolution, s[#[trigger] u[k]], s[i])) && (j > 0
                ==> order_le(by_resolution, s[u[j - 1]], s[i]));
        assert(t.insert(j, i) =~= u.insert(j, i).push(t.last()));
        assert forall|k: int| j <= k < t.len() implies !order_le(
            by_resolution,
            s[#[trigger] t[k]],
            s[i],
        ) by {
            if k < u.len() {
                assert(t[k] == u[k]);
            }
        }
        if j > 0 {
            assert(t[j - 1] == u[j - 1]);
        }
    }
}

/// The `k`-th element of the arrangement `p` may precede the next by position.
pub open spec fn adjacent_in_position(s: Seq<CandidateView>, p: Seq<int>, k: int) -> bool {
    position_le(s[p[k]], s[p[k + 1]])
}

/// The stable order of `n` elements is an arrangement of the indices
/// `0..n`; by position, each element may precede the next.
pub proof fn lemma_order_prefix(by_resolution: bool, s: Seq<CandidateView>, n: int)
    requires
        0 <= n,
    ensures
        order_prefix(by_resolution, s, n).len() == n,
        forall|k: int|
            0 <= k < n ==> 0 <= #[trigger] order_prefix(by_resolution, s, n)[k] < n,
        forall|k1: int, k2: int|
            0 <= k1 < n && 0 <= k2 < n && k1 != k2 ==> #[trigger] order_prefix(
                by_resolution,
                s,
                n,
            )[k1] != #[trigger] order_prefix(by_resolution, s, n)[k2],
        !by_resolution ==> forall|k: int|
            0 <= k < n - 1 ==> #[trigger] adjacent_in_position(s, order_prefix(by_resolution, s, n), k),
    decreases n,
{
    if n > 0 {
        let t = order_prefix(by_resolution, s, n - 1);
        lemma_order_prefix(by_resolution, s, n - 1);
        let i = n - 1;
        lemma_insert_index_shape(by_resolution, s, t, i);
        let j = choose|j: int|
            0 <= j <= t.len() && insert_index(by_resolution, s, t, i) == #[trigger] t.insert(j, i)
                && (forall|k: int|
                j <= k < t.len() ==> !order_le(by_resolution, s[#[trigger] t[k]], s[i])) && (j > 0
                ==> order_le(by_resolution, s[t[j - 1]], s[i]));
        let r = order_prefix(by_resolution, s, n);
        assert(r == t.insert(j, n - 1));
        assert forall|k: int| 0 <= k < n implies 0 <= #[trigger] r[k] < n by {
            if k < j {
                assert(r[k] == t[k]);
            } else if k > j {
                assert(r[k] == t[k - 1]);
            }
        }
        assert forall|k1: int, k2: int|
            0 <= k1 < n && 0 <= k2 < n && k1 != k2 implies #[trigger] r[k1] != #[trigger] r[k2] by {
            if k1 < j && k2 < j {
            } else if k1 > j && k2 > j {
                assert(r[k1] == t[k1 - 1]);
                assert(r[k2] == t[k2 - 1]);
            } else if k1 < j && k2 > j {
                assert(r[k2] == t[k2 - 1]);
            } else if k1 > j && k2 < j {
                assert(r[k1] == t[k1 - 1]);
            } else if k1 == j {
                if k2 > j {
                    assert(r[k2] == t[k2 - 1]);
                }
            } else {
                if k1 > j {
                    assert(r[k1] == t[k1 - 1]);
                }
            }
        }
        if !by_resolution {
            assert forall|k: int| 0 <= k < n - 1 implies #[trigger] adjacent_in_position(s, r, k) by {
                if k + 1 < j {
                    assert(r[k] == t[k] && r[k + 1] == t[k + 1]);
                    assert(adjacent_in_position(s, t, k));
                } else if k + 1 == j {
                    assert(r[k] == t[k]);
                    assert(r[k + 1] == i);
                } else if k == j {
                    assert(r[k] == i);
                    assert(r[k + 1] == t[k]);
                    assert(!order_le(by_resolution, s[t[k]], s[i]));
                } else {
                    assert(r[k] == t[k - 1] && r[k + 1] == t[k]);
                    assert(adjacent_in_position(s, t, k - 1));
                }
            }
        }
    }
}

/// Whether `a` may precede `b`.
fn precedes(by_resolution: bool, a: &CandidateMatch, b: &CandidateMatch) -> (r: bool)
    requires
        a.span.start <= a.span.end,
        b.span.start <= b.span.end,
    ensures
        r == order_le(by_resolution, a@, b@),
{
    if a.span.start != b.span.start {
        return a.span.start < b.span.start;
    }
    if !by_resolution {
        return a.span.end <= b.span.end;
    }
    let la = a.span.end - a.span.start;
    let lb = b.span.end - b.span.start;
    if la != lb {
        return la > lb;
    }
    if a.priority != b.priority {
        return a.priority > b.priority;
    }
    str_le(a.detector_id.as_str(), b.detector_id.as_str())
}

/// Byte-wise comparison of two strings.
fn str_le(x: &str, y: &str) -> (r: bool)
    ensures
        r == bytes_le(bytes_of(x@), bytes_of(y@)),
{
    let xb = x.as_bytes();
    let yb = y.as_bytes();
    let mut i: usize = 0;
    assert(xb@.skip(0) =~= xb@);
    assert(yb@.skip(0) =~= yb@);
    while i < xb.len() && i < yb.len()
        invariant
            xb@ == bytes_of(x@),
            yb@ == bytes_of(y@),
            i <= xb@.len(),
            i <= yb@.len(),
            bytes_le(xb@, yb@) == bytes_le(xb@.skip(i as int), yb@.skip(i as int)),
        decreases xb@.len() - i,
    {
        if xb[i] != yb[i] {
            return xb[i] < yb[i];
        }
        assert(xb@.skip(i as int).drop_first() =~= xb@.skip(i + 1));
        assert(yb@.skip(i as int).drop_first() =~= yb@.skip(i + 1));
        i += 1;
    }
    i == xb.len()
}

/// Sorts candidates stably, by position or in resolution order.
pub fn stable_sort(by_resolution: bool, v: Vec<CandidateMatch>) -> (r: Vec<CandidateMatch>)
    requires
        forall|i: int| 0 <= i < v@.len() ==> (#[trigger] v@[i]).span.start <= v@[i].span.end,
    ensures
        views(r@) == stable_sorted(by_resolution, views(v@)),
        r@.len() == v@.len(),
        forall|i: int| 0 <= i < r@.len() ==> (#[trigger] r@[i]).span.start <= r@[i].span.end,
{
    let ghost s = views(v@);
    let ghost orig = v@;
    let n = v.len();
    let mut v = v;
    let mut rev: Vec<CandidateMatch> = Vec::new();
    while v.len() > 0
        invariant
            v@.len() + rev@.len() == n,
            n == orig.len(),
            forall|k: int| 0 <= k < v@.len() ==> v@[k] == orig[k],
            forall|k: int| 0 <= k < rev@.len() ==> rev@[k] == orig[n - 1 - k],
        decreases v@.len(),
    {
        let x = v.pop().unwrap();
        rev.push(x);
    }
    let mut out: Vec<CandidateMatch> = Vec::new();
    let ghost mut perm: Seq<int> = seq![];
    let mut i: usize = 0;
    while i < n
        invariant
            n == orig.len(),
            s == views(orig),
            i <= n,
            rev@.len() == n - i,
            forall|k: int| 0 <= k < rev@.len() ==> rev@[k] == orig[n - 1 - k],
            forall|k: int| 0 <= k < orig.len() ==> (#[trigger] orig[k]).span.start <= orig[k].span.end,
            perm == order_prefix(by_resolution, s, i as int),
            out@.len() == perm.len(),
            out@.len() == i,
            forall|k: int| 0 <= k < perm.len() ==> 0 <= #[trigger] perm[k] < i,
            forall|k: int| 0 <= k < out@.len() ==> #[trigger] out@[k] == orig[perm[k]],
        decreases n - i,
    {
        let x = rev.pop().unwrap();
        assert(x == orig[i as int]);
        let mut j = out.len();
        while j > 0
            invariant
                j <= out@.len(),
                out@.len() == perm.len(),
                x == orig[i as int],
                forall|k: int| 0 <= k < orig.len() ==> (#[trigger] orig[k]).span.start <= orig[k].span.end,
                forall|k: int| 0 <= k < perm.len() ==> 0 <= #[trigger] perm[k] < i,
                forall|k: int| 0 <= k < out@.len() ==> #[trigger] out@[k] == orig[perm[k]],
                forall|k: int| j <= k < perm.len() ==> !order_le(by_resolution, s[#[trigger] perm[k]], s[i as int]),
                i < n,
                n == orig.len(),
                s == views(orig),
            ensures
                j > 0 ==> order_le(by_resolution, s[perm[j - 1]], s[i as int]),
            decreases j,
        {
            let ghost p = perm[j - 1];
            assert(out@[j - 1] == orig[p]);
            assert(0 <= p < orig.len());
            assert(s[p] == orig[p]@);
            assert(s[i as int] == x@);
            if precedes(by_resolution, &out[j - 1], &x) {
                break;
            }
            j -= 1;
        }
        proof {
            if j > 0 {
                assert(order_le(by_resolution, s[perm[j - 1]], s[i as int]));
            }
            lemma_insert_index_at(by_resolution, s, perm, i as int, j as int);
            perm = perm.insert(j as int, i as int);
        }
        out.insert(j, x);
        i += 1;
        assert forall|k: int| 0 <= k < out@.len() implies #[trigger] out@[k] == orig[perm[k]] by {
            if k < j {
            } else if k == j {
            } else {
            }
        }
    }
    proof {
        let sorted = stable_sorted(by_resolution, s);
        assert(views(out@) =~= sorted);
    }
    out
}

} // verus!
