//! Substitution of resolved matches by numbered placeholders.

use vstd::prelude::*;
use vstd::string::StringExecFns;
use vstd::utf8::{encode_utf8_valid_utf8, is_char_boundary, is_char_boundary_start_end_of_seq};
use crate::detector::{
    CandidateMatch, CandidateView, Category, CategoryView, Confidence, DetectorId, Span, span_fits,
    spans_follow, views,
};
use crate::ordering::{adjacent_in_position, lemma_order_prefix, order_prefix, position_le, stable_sort, stable_sorted};
use crate::text::{
    byte_len, bytes_of, decimal_string, decimal_text, digit_char, lemma_bytes_of_concat,
    slice_between, to_uppercase, upper_of,
};

verus! {

broadcast use vstd::string::group_string_axioms;

/// The record kept of one substitution.
pub struct Replacement {
    pub span: Span,
    pub original: String,
    pub placeholder: String,
    pub category: Category,
    pub detector_id: DetectorId,
    pub confidence: Confidence,
}

/// The value of a [`Replacement`], with strings as their characters.
pub struct ReplacementView {
    pub span: Span,
    pub original: Seq<char>,
    pub placeholder: Seq<char>,
    pub category: CategoryView,
    pub detector_id: Seq<char>,
    pub confidence: Confidence,
}

impl View for Replacement {
    type V = ReplacementView;

    open spec fn view(&self) -> ReplacementView {
        ReplacementView {
            span: self.span,
            original: self.original@,
            placeholder: self.placeholder@,
            category: self.category@,
            detector_id: self.detector_id@,
            confidence: self.confidence,
        }
    }
}

/// The outcome of substitution.
pub struct ReplacementResult {
    pub anonymized_text: String,
    pub replacements: Vec<Replacement>,
    pub original_length: usize,
    pub anonymized_length: usize,
}

/// Substitutes matches by sequentially numbered placeholders.
pub struct ReplacementEngine;

/// The upper-snake-case stem of a category's placeholders.
pub open spec fn stem_of(c: CategoryView) -> Seq<char> {
    match c {
        CategoryView::Email => "EMAIL"@,
        CategoryView::Phone => "PHONE"@,
        CategoryView::Iban => "IBAN"@,
        CategoryView::NationalId => "NATIONAL_ID"@,
        CategoryView::CreditCard => "CREDIT_CARD"@,
        CategoryView::ProjectCode => "PROJECT_CODE"@,
        CategoryView::ContractNumber => "CONTRACT_NUMBER"@,
        CategoryView::WorkOrder => "WORK_ORDER"@,
        CategoryView::PurchaseOrder => "PURCHASE_ORDER"@,
        CategoryView::SerialNumber => "SERIAL_NUMBER"@,
        CategoryView::CostCenter => "COST_CENTER"@,
        CategoryView::CompanyName => "COMPANY_NAME"@,
        CategoryView::ProjectName => "PROJECT_NAME"@,
        CategoryView::PersonnelName => "PERSONNEL_NAME"@,
        CategoryView::ClientName => "CLIENT_NAME"@,
        CategoryView::DocumentNumber => "DOCUMENT_NUMBER"@,
        CategoryView::RevisedBy => "REVISED_BY"@,
        CategoryView::ApprovedBy => "APPROVED_BY"@,
        CategoryView::DesignedBy => "DESIGNED_BY"@,
        CategoryView::Custom(s) => upper_of(s),
    }
}

/// `[<STEM>_<N>]`.
pub open spec fn placeholder_text(c: CategoryView, n: nat) -> Seq<char> {
    seq!['['] + stem_of(c) + seq!['_'] + decimal_text(n) + seq![']']
}

/// How many of the first `k` candidates have category `c`.
pub open spec fn category_count(s: Seq<CandidateView>, k: int, c: CategoryView) -> nat
    decreases k,
{
    if k <= 0 {
        0
    } else if s[k - 1].category == c {
        category_count(s, k - 1, c) + 1
    } else {
        category_count(s, k - 1, c)
    }
}

/// The placeholder of the `k`-th candidate: its category's count so far.
pub open spec fn numbered(s: Seq<CandidateView>, k: int) -> Seq<char> {
    placeholder_text(s[k].category, category_count(s, k + 1, s[k].category))
}

/// The record of the `k`-th substitution.
pub open spec fn record_for(s: Seq<CandidateView>, k: int) -> ReplacementView {
    ReplacementView {
        span: s[k].span,
        original: s[k].raw_value,
        placeholder: numbered(s, k),
        category: s[k].category,
        detector_id: s[k].detector_id,
        confidence: s[k].confidence,
    }
}

/// The bytes `b` from offset `cur` on, with the spans of candidates `k..`
/// each replaced by its placeholder.
pub open spec fn substituted(b: Seq<u8>, s: Seq<CandidateView>, k: int, cur: int) -> Seq<u8>
    decreases s.len() - k,
{
    if k >= s.len() {
        b.subrange(cur, b.len() as int)
    } else {
        b.subrange(cur, s[k].span.start as int) + bytes_of(numbered(s, k)) + substituted(
            b,
            s,
            k + 1,
            s[k].span.end as int,
        )
    }
}

/// The bytes `b` from offset `cur` on, with the spans of candidates `k..`
/// each replaced by the candidate's raw value.
pub open spec fn restored(b: Seq<u8>, s: Seq<CandidateView>, k: int, cur: int) -> Seq<u8>
    decreases s.len() - k,
{
    if k >= s.len() {
        b.subrange(cur, b.len() as int)
    } else {
        b.subrange(cur, s[k].span.start as int) + bytes_of(s[k].raw_value) + restored(
            b,
            s,
            k + 1,
            s[k].span.end as int,
        )
    }
}

/// Splicing each candidate's raw value back into its span gives back the
/// text, when the raw values are what the spans cover.
pub proof fn lemma_originals_restore(b: Seq<u8>, s: Seq<CandidateView>)
    requires
        forall|i: int| 0 <= i < s.len() ==> (#[trigger] s[i]).span.start <= s[i].span.end <= b.len(),
        forall|i: int| 0 <= i < s.len() - 1 ==> #[trigger] spans_follow(s, i),
        forall|i: int|
            0 <= i < s.len() ==> bytes_of((#[trigger] s[i]).raw_value) == b.subrange(
                s[i].span.start as int,
                s[i].span.end as int,
            ),
    ensures
        restored(b, s, 0, 0) == b,
{
    lemma_restore_from(b, s, 0, 0);
    assert(b.subrange(0, b.len() as int) =~= b);
}

proof fn lemma_restore_from(b: Seq<u8>, s: Seq<CandidateView>, k: int, cur: int)
    requires
        0 <= k <= s.len(),
        0 <= cur,
        k < s.len() ==> cur <= s[k].span.start,
        k == s.len() ==> cur <= b.len(),
        forall|i: int| 0 <= i < s.len() ==> (#[trigger] s[i]).span.start <= s[i].span.end <= b.len(),
        forall|i: int| 0 <= i < s.len() - 1 ==> #[trigger] spans_follow(s, i),
        forall|i: int|
            0 <= i < s.len() ==> bytes_of((#[trigger] s[i]).raw_value) == b.subrange(
                s[i].span.start as int,
                s[i].span.end as int,
            ),
    ensures
        restored(b, s, k, cur) == b.subrange(cur, b.len() as int),
    decreases s.len() - k,
{
    if k < s.len() {
        let st = s[k].span.start as int;
        let en = s[k].span.end as int;
        if k + 1 < s.len() {
            assert(spans_follow(s, k));
        }
        lemma_restore_from(b, s, k + 1, en);
        assert(b.subrange(cur, st) + b.subrange(st, en) + b.subrange(en, b.len() as int)
            =~= b.subrange(cur, b.len() as int));
    }
}

/// No two of the candidates' spans overlap (spans are half-open).
pub open spec fn non_overlapping(s: Seq<CandidateView>) -> bool {
    forall|i: int, j: int|
        0 <= i < s.len() && 0 <= j < s.len() && i != j ==> (#[trigger] s[i]).span.end
            <= (#[trigger] s[j]).span.start || s[j].span.end <= s[i].span.start
}

impl Category {
    /// The placeholder stem: the upper-snake-case tag, or a custom name upper-cased.
    pub fn placeholder_stem(&self) -> (r: String)
        ensures
            r@ == stem_of(self@),
    {
        match self {
            Category::Email => "EMAIL".to_string(),
            Category::Phone => "PHONE".to_string(),
            Category::Iban => "IBAN".to_string(),
            Category::NationalId => "NATIONAL_ID".to_string(),
            Category::CreditCard => "CREDIT_CARD".to_string(),
            Category::ProjectCode => "PROJECT_CODE".to_string(),
            Category::ContractNumber => "CONTRACT_NUMBER".to_string(),
            Category::WorkOrder => "WORK_ORDER".to_string(),
            Category::PurchaseOrder => "PURCHASE_ORDER".to_string(),
            Category::SerialNumber => "SERIAL_NUMBER".to_string(),
            Category::CostCenter => "COST_CENTER".to_string(),
            Category::CompanyName => "COMPANY_NAME".to_string(),
            Category::ProjectName => "PROJECT_NAME".to_string(),
            Category::PersonnelName => "PERSONNEL_NAME".to_string(),
            Category::ClientName => "CLIENT_NAME".to_string(),
            Category::DocumentNumber => "DOCUMENT_NUMBER".to_string(),
            Category::RevisedBy => "REVISED_BY".to_string(),
            Category::ApprovedBy => "APPROVED_BY".to_string(),
            Category::DesignedBy => "DESIGNED_BY".to_string(),
            Category::Custom(s) => to_uppercase(s.as_str()),
        }
    }
}

/// `[<STEM>_<n>]` for `category`.
pub fn make_placeholder(category: &Category, n: usize) -> (r: String)
    ensures
        r@ == placeholder_text(category@, n as nat),
{
    let stem = category.placeholder_stem();
    let digits = decimal_string(n);
    let mut r = String::new();
    r.append("[");
    r.append(stem.as_str());
    r.append("_");
    r.append(digits.as_str());
    r.append("]");
    proof {
        reveal_strlit("[");
        reveal_strlit("_");
        reveal_strlit("]");
    }
    assert(r@ =~= placeholder_text(category@, n as nat));
    r
}

/// Where `c` stands in `cats`, if anywhere.
fn position_of(cats: &Vec<Category>, c: &Category) -> (r: Option<usize>)
    ensures
        r is Some ==> r->0 < cats@.len() && cats@[r->0 as int]@ == c@,
        r is None ==> forall|u: int| 0 <= u < cats@.len() ==> cats@[u]@ != c@,
{
    let mut t: usize = 0;
    while t < cats.len()
        invariant
            t <= cats@.len(),
            forall|u: int| 0 <= u < t ==> cats@[u]@ != c@,
        decreases cats@.len() - t,
    {
        if cats[t].same_as(c) {
            return Some(t);
        }
        t += 1;
    }
    None
}

/// Appends the bytes of `text` from `from` to `to`, then `placeholder`.
fn append_piece(out: &mut String, text: &str, from: usize, to: usize, placeholder: &str)
    requires
        from <= to <= bytes_of(text@).len(),
        is_char_boundary(bytes_of(text@), from as int),
        is_char_boundary(bytes_of(text@), to as int),
    ensures
        bytes_of(final(out)@) == bytes_of(old(out)@) + bytes_of(text@).subrange(from as int, to as int)
            + bytes_of(placeholder@),
{
    let piece = slice_between(text, from, to);
    let ghost before = out@;
    out.append(piece);
    out.append(placeholder);
    proof {
        lemma_bytes_of_concat(before, piece@);
        lemma_bytes_of_concat(before + piece@, placeholder@);
        assert(out@ == before + piece@ + placeholder@);
    }
}

/// The categories of the first `k` candidates, in order of first appearance.
pub open spec fn first_seen(s: Seq<CandidateView>, k: int) -> Seq<CategoryView>
    decreases k,
{
    if k <= 0 {
        seq![]
    } else if first_seen(s, k - 1).contains(s[k - 1].category) {
        first_seen(s, k - 1)
    } else {
        first_seen(s, k - 1).push(s[k - 1].category)
    }
}

/// The views of some categories.
pub open spec fn category_views(cats: Seq<Category>) -> Seq<CategoryView> {
    cats.map_values(|c: Category| c@)
}

/// `c` is the category of one of `cats`.
pub(crate) open spec fn listed(cats: Seq<Category>, c: CategoryView) -> bool {
    exists|t: int| 0 <= t < cats.len() && (#[trigger] cats[t])@ == c
}

/// `c` is the category of one of the first `k` candidates.
pub(crate) open spec fn occurs(s: Seq<CandidateView>, k: int, c: CategoryView) -> bool {
    exists|j: int| 0 <= j < k && (#[trigger] s[j]).category == c
}

/// One counter per category met so far.
pub(crate) struct Tally {
    pub(crate) cats: Vec<Category>,
    pub(crate) counts: Vec<usize>,
}

impl Tally {
    /// The counters hold, for every category among the first `k` candidates,
    /// how many of them have it.
    pub(crate) open spec fn counts_first(&self, s: Seq<CandidateView>, k: int) -> bool {
        &&& self.cats@.len() == self.counts@.len()
        &&& forall|t1: int, t2: int|
            0 <= t1 < self.cats@.len() && 0 <= t2 < self.cats@.len() && t1 != t2
                ==> (#[trigger] self.cats@[t1])@ != (#[trigger] self.cats@[t2])@
        &&& forall|t: int|
            0 <= t < self.cats@.len() ==> #[trigger] self.counts@[t] == category_count(
                s,
                k,
                self.cats@[t]@,
            )
        &&& category_views(self.cats@) == first_seen(s, k)
        &&& forall|j: int| 0 <= j < k ==> #[trigger] listed(self.cats@, s[j].category)
        &&& forall|t: int| 0 <= t < self.cats@.len() ==> #[trigger] occurs(s, k, self.cats@[t]@)
    }

    pub(crate) fn new() -> (r: Tally)
        ensures
            forall|s: Seq<CandidateView>| #[trigger] r.counts_first(s, 0),
    {
        let r = Tally { cats: Vec::new(), counts: Vec::new() };
        assert forall|s: Seq<CandidateView>| #[trigger] r.counts_first(s, 0) by {
            assert(category_views(r.cats@) =~= first_seen(s, 0));
        }
        r
    }

    /// Counts candidate `k`, of category `c`, and returns its number.
    pub(crate) fn bump(&mut self, c: &Category, Ghost(s): Ghost<Seq<CandidateView>>, Ghost(k): Ghost<int>) -> (n: usize)
        requires
            old(self).counts_first(s, k),
            0 <= k < s.len(),
            s.len() <= usize::MAX,
            s[k].category == c@,
        ensures
            final(self).counts_first(s, k + 1),
            n as nat == category_count(s, k + 1, c@),
    {
        let pos = position_of(&self.cats, c);
        proof {
            lemma_category_count_bound(s, k, c@);
        }
        let ghost old_cats = self.cats@;
        let ghost old_counts = self.counts@;
        let n: usize;
        if let Some(t) = pos {
            n = self.counts[t] + 1;
            self.counts.set(t, n);
        } else {
            proof {
                assert forall|j: int| 0 <= j < k implies s[j].category != c@ by {
                    assert(listed(old_cats, s[j].category));
                }
                lemma_category_count_zero(s, k, c@);
            }
            n = 1;
            self.cats.push(c.duplicate());
            self.counts.push(1);
        }
        proof {
            let fs = first_seen(s, k);
            if pos is Some {
                assert(fs[pos->0 as int] == c@);
                assert(fs.contains(c@));
                assert(first_seen(s, k + 1) == fs);
                assert(category_views(self.cats@) =~= category_views(old_cats));
            } else {
                assert(!fs.contains(c@)) by {
                    if fs.contains(c@) {
                        let u = choose|u: int| 0 <= u < fs.len() && fs[u] == c@;
                        assert(old_cats[u]@ == c@);
                    }
                }
                assert(category_views(self.cats@) =~= fs.push(c@));
            }
            assert forall|tt: int| 0 <= tt < self.cats@.len() implies #[trigger] self.counts@[tt]
                == category_count(s, k + 1, self.cats@[tt]@) by {
                let x = self.cats@[tt]@;
                assert(category_count(s, k + 1, x) == category_count(s, k, x) + if s[k].category
                    == x {
                    1int
                } else {
                    0int
                });
                if tt < old_cats.len() {
                    assert(self.cats@[tt] == old_cats[tt]);
                    assert(old_counts[tt] == category_count(s, k, x));
                    if pos is Some && tt == pos->0 as int {
                        assert(x == c@);
                        assert(self.counts@[tt] == old_counts[tt] + 1);
                    } else {
                        assert(x != c@);
                        assert(self.counts@[tt] == old_counts[tt]);
                    }
                } else {
                    assert(x == c@);
                    assert(self.counts@[tt] == 1);
                }
            }
            assert forall|t1: int, t2: int|
                0 <= t1 < self.cats@.len() && 0 <= t2 < self.cats@.len() && t1 != t2
                implies (#[trigger] self.cats@[t1])@ != (#[trigger] self.cats@[t2])@ by {
                if t1 < old_cats.len() {
                    assert(self.cats@[t1] == old_cats[t1]);
                }
                if t2 < old_cats.len() {
                    assert(self.cats@[t2] == old_cats[t2]);
                }
            }
            assert forall|tt: int| 0 <= tt < self.cats@.len() implies #[trigger] occurs(
                s,
                k + 1,
                self.cats@[tt]@,
            ) by {
                if tt < old_cats.len() {
                    assert(self.cats@[tt] == old_cats[tt]);
                    assert(occurs(s, k, old_cats[tt]@));
                    let j = choose|j: int| 0 <= j < k && (#[trigger] s[j]).category == old_cats[tt]@;
                    assert(s[j].category == self.cats@[tt]@);
                } else {
                    assert(s[k].category == self.cats@[tt]@);
                }
            }
            assert forall|j: int| 0 <= j < k + 1 implies #[trigger] listed(self.cats@, s[j].category) by {
                if j < k {
                    assert(listed(old_cats, s[j].category));
                    let tt = choose|tt: int| 0 <= tt < old_cats.len() && (#[trigger] old_cats[tt])@ == s[j].category;
                    assert(self.cats@[tt] == old_cats[tt]);
                } else if pos is Some {
                    assert(self.cats@[pos->0 as int]@ == c@);
                } else {
                    assert(self.cats@[old_cats.len() as int]@ == c@);
                }
            }
        }
        n
    }
}

/// In position order, the spans of non-overlapping candidates that lie in
/// `text` follow one another.
pub proof fn lemma_position_order(s: Seq<CandidateView>, text: Seq<char>)
    requires
        forall|i: int| 0 <= i < s.len() ==> span_fits((#[trigger] s[i]).span, text),
        non_overlapping(s),
    ensures
        ({
            let o = stable_sorted(false, s);
            &&& o.len() == s.len()
            &&& forall|k: int| 0 <= k < o.len() ==> span_fits((#[trigger] o[k]).span, text)
            &&& forall|k: int| 0 <= k < o.len() - 1 ==> #[trigger] spans_follow(o, k)
        }),
{
    reveal(span_fits);
    let n0 = s.len() as int;
    let p = order_prefix(false, s, n0);
    let o = stable_sorted(false, s);
    lemma_order_prefix(false, s, n0);
    assert forall|k: int| 0 <= k < n0 implies span_fits((#[trigger] o[k]).span, text) by {
        assert(o[k] == s[p[k]]);
    }
    assert forall|k: int| 0 <= k < n0 - 1 implies #[trigger] spans_follow(o, k) by {
        assert(adjacent_in_position(s, p, k));
        assert(o[k] == s[p[k]]);
        assert(o[k + 1] == s[p[k + 1]]);
        assert(position_le(s[p[k]], s[p[k + 1]]));
        assert(p[k] != p[k + 1]);
        assert(span_fits(o[k].span, text));
        assert(span_fits(o[k + 1].span, text));
    }
}

impl ReplacementEngine {
    /// Replaces each match by `[<STEM>_<N>]`, numbering matches left to
    /// right with one counter per category, and records each substitution
    /// in order of appearance.
    pub fn replace(text: &str, matches: Vec<CandidateMatch>) -> (r: ReplacementResult)
        requires
            forall|i: int| 0 <= i < matches@.len() ==> span_fits((#[trigger] matches@[i]).span, text@),
            non_overlapping(views(matches@)),
        ensures
            ({
                let ordered = stable_sorted(false, views(matches@));
                &&& r.replacements@.len() == ordered.len()
                &&& forall|k: int|
                    0 <= k < ordered.len() ==> (#[trigger] r.replacements@[k])@ == record_for(ordered, k)
                &&& bytes_of(r.anonymized_text@) == substituted(bytes_of(text@), ordered, 0, 0)
                &&& r.original_length == bytes_of(text@).len()
                &&& r.anonymized_length == bytes_of(r.anonymized_text@).len()
            }),
    {
        let ghost s = views(matches@);
        let ghost b = bytes_of(text@);
        proof {
            assert forall|i: int| 0 <= i < s.len() implies (#[trigger] matches@[i]).span.start
                <= matches@[i].span.end by {
                reveal(span_fits);
                assert(span_fits(matches@[i].span, text@));
            }
            assert forall|i: int| 0 <= i < s.len() implies span_fits((#[trigger] s[i]).span, text@) by {
                assert(s[i] == matches@[i]@);
            }
            lemma_position_order(s, text@);
            encode_utf8_valid_utf8(text@);
            is_char_boundary_start_end_of_seq(b);
        }
        let sorted = stable_sort(false, matches);
        let ghost ordered = stable_sorted(false, s);
        let n = sorted.len();
        let mut tally = Tally::new();
        let mut out = String::new();
        let mut cur: usize = 0;
        let mut replacements: Vec<Replacement> = Vec::new();
        let mut k: usize = 0;
        assert(bytes_of(out@) =~= seq![]);
        while k < n
            invariant
                n == ordered.len(),
                views(sorted@) == ordered,
                b == bytes_of(text@),
                k <= n,
                forall|i: int| 0 <= i < n ==> span_fits((#[trigger] ordered[i]).span, text@),
                forall|i: int| 0 <= i < n - 1 ==> #[trigger] spans_follow(ordered, i),
                tally.counts_first(ordered, k as int),
                cur <= b.len(),
                is_char_boundary(b, cur as int),
                is_char_boundary(b, b.len() as int),
                k < n ==> cur <= ordered[k as int].span.start,
                bytes_of(out@) + substituted(b, ordered, k as int, cur as int) == substituted(b, ordered, 0, 0),
                replacements@.len() == k,
                forall|j: int| 0 <= j < k ==> (#[trigger] replacements@[j])@ == record_for(ordered, j),
            decreases n - k,
        {
            proof {
                reveal(span_fits);
            }
            let m = &sorted[k];
            assert(m@ == ordered[k as int]);
            if k + 1 < n {
                assert(spans_follow(ordered, k as int));
            }
            let nk = tally.bump(&m.category, Ghost(ordered), Ghost(k as int));
            let ph = make_placeholder(&m.category, nk);
            assert(ph@ == numbered(ordered, k as int));
            let ghost before = out@;
            proof {
                reveal(span_fits);
            }
            append_piece(&mut out, text, cur, m.span.start, ph.as_str());
            proof {
                let st = ordered[k as int].span.start as int;
                let en = ordered[k as int].span.end as int;
                assert(substituted(b, ordered, k as int, cur as int) == b.subrange(cur as int, st)
                    + bytes_of(numbered(ordered, k as int)) + substituted(b, ordered, k + 1, en));
                assert(bytes_of(out@) + substituted(b, ordered, k + 1, en) =~= bytes_of(before)
                    + substituted(b, ordered, k as int, cur as int));
            }
            cur = m.span.end;
            replacements.push(
                Replacement {
                    span: m.span,
                    original: m.raw_value.clone(),
                    placeholder: ph,
                    category: m.category.duplicate(),
                    detector_id: m.detector_id.clone(),
                    confidence: m.confidence,
                },
            );
            k += 1;
        }
        let text_len = byte_len(text);
        let tail = slice_between(text, cur, text_len);
        let ghost before = out@;
        out.append(tail);
        proof {
            lemma_bytes_of_concat(before, tail@);
            assert(bytes_of(out@) == substituted(b, ordered, 0, 0));
        }
        let anonymized_length = byte_len(out.as_str());
        ReplacementResult {
            anonymized_text: out,
            replacements,
            original_length: text_len,
            anonymized_length,
        }
    }
}

proof fn lemma_decimal_text_digits(n: nat)
    ensures
        decimal_text(n).len() >= 1,
        n >= 10 ==> decimal_text(n).len() >= 2,
        forall|i: int| 0 <= i < decimal_text(n).len() ==> '0' <= #[trigger] decimal_text(n)[i] <= '9',
    decreases n,
{
    if n >= 10 {
        lemma_decimal_text_digits(n / 10);
        assert forall|i: int| 0 <= i < decimal_text(n).len() implies '0' <= #[trigger] decimal_text(
            n,
        )[i] <= '9' by {
            if i < decimal_text(n / 10).len() {
                assert(decimal_text(n)[i] == decimal_text(n / 10)[i]);
            }
        }
    }
}

proof fn lemma_decimal_text_injective(a: nat, b: nat)
    requires
        decimal_text(a) == decimal_text(b),
    ensures
        a == b,
    decreases a + b,
{
    lemma_decimal_text_digits(a);
    lemma_decimal_text_digits(b);
    if a >= 10 && b >= 10 {
        let da = decimal_text(a);
        assert(da.drop_last() == decimal_text(a / 10));
        assert(decimal_text(b).drop_last() == decimal_text(b / 10));
        lemma_decimal_text_injective(a / 10, b / 10);
        assert(da.last() == digit_char(a % 10));
        assert(decimal_text(b).last() == digit_char(b % 10));
    } else if a < 10 && b < 10 {
        assert(decimal_text(a)[0] == digit_char(a));
        assert(decimal_text(b)[0] == digit_char(b));
    }
}

/// Two placeholders are equal only when their stems and numbers are.
pub proof fn lemma_placeholder_injective(c1: CategoryView, n1: nat, c2: CategoryView, n2: nat)
    requires
        placeholder_text(c1, n1) == placeholder_text(c2, n2),
    ensures
        stem_of(c1) == stem_of(c2),
        n1 == n2,
{
    let a = stem_of(c1);
    let b = stem_of(c2);
    let d1 = decimal_text(n1);
    let d2 = decimal_text(n2);
    lemma_decimal_text_digits(n1);
    lemma_decimal_text_digits(n2);
    let p = placeholder_text(c1, n1);
    let inner = p.subrange(1, p.len() - 1);
    assert(inner =~= a + seq!['_'] + d1);
    assert(inner =~= b + seq!['_'] + d2);
    if d1.len() == d2.len() {
        assert(a =~= inner.subrange(0, a.len() as int));
        assert(b =~= inner.subrange(0, b.len() as int));
        assert(d1 =~= inner.subrange(a.len() as int + 1, inner.len() as int));
        assert(d2 =~= inner.subrange(b.len() as int + 1, inner.len() as int));
        lemma_decimal_text_injective(n1, n2);
    } else if d1.len() < d2.len() {
        let q = a.len() as int;
        assert(inner[q] == '_');
        assert(inner[q] == d2[q - b.len() - 1]);
    } else {
        let q = b.len() as int;
        assert(inner[q] == '_');
        assert(inner[q] == d1[q - a.len() - 1]);
    }
}

proof fn lemma_category_count_monotonic(s: Seq<CandidateView>, i: int, j: int, c: CategoryView)
    requires
        0 <= i <= j,
    ensures
        category_count(s, i, c) <= category_count(s, j, c),
    decreases j - i,
{
    if i < j {
        lemma_category_count_monotonic(s, i, j - 1, c);
    }
}

/// Within a run, placeholders are unique, provided that candidates of
/// different categories have different stems.
pub proof fn lemma_placeholders_unique(s: Seq<CandidateView>, i: int, j: int)
    requires
        0 <= i < j < s.len(),
        s[i].category != s[j].category ==> stem_of(s[i].category) != stem_of(s[j].category),
    ensures
        numbered(s, i) != numbered(s, j),
{
    let ci = s[i].category;
    let cj = s[j].category;
    if numbered(s, i) == numbered(s, j) {
        lemma_placeholder_injective(
            ci,
            category_count(s, i + 1, ci),
            cj,
            category_count(s, j + 1, cj),
        );
        if ci == cj {
            lemma_category_count_monotonic(s, i + 1, j, ci);
            assert(category_count(s, j + 1, ci) == category_count(s, j, ci) + 1);
        }
    }
}

proof fn lemma_category_count_zero(s: Seq<CandidateView>, k: int, c: CategoryView)
    requires
        forall|j: int| 0 <= j < k ==> s[j].category != c,
    ensures
        category_count(s, k, c) == 0,
    decreases k,
{
    if k > 0 {
        lemma_category_count_zero(s, k - 1, c);
    }
}

proof fn lemma_category_count_bound(s: Seq<CandidateView>, k: int, c: CategoryView)
    requires
        0 <= k,
    ensures
        category_count(s, k, c) <= k,
    decreases k,
{
    if k > 0 {
        lemma_category_count_bound(s, k - 1, c);
    }
}

} // verus!
