//! The engine facade: normalize, detect, resolve, replace, report.

use vstd::prelude::*;
use crate::audit_report::{
    AuditReport, ContentHash, ReplacementRecord, Statistics, category_name, record_of,
    record_view_of, sha256_hex, sha256_hex_of,
};
use crate::conflict_resolver::{
    ConflictResolver, lemma_chain_non_overlapping, lemma_resolved_from, lemma_resolved_ordered,
    resolved,
};
use crate::detector::{CandidateMatch, CandidateView, CategoryView, Detector, fits_text, span_fits, views};
use crate::detector::builtin::BuiltinDetector;
use crate::detector::email::EmailDetector;
use crate::detector::phone::PhoneDetector;
use crate::detector::dni::DniDetector;
use crate::detector::iban::IbanDetector;
use crate::detector::credit_card::CreditCardDetector;
use crate::detector::ssn::SsnDetector;
use crate::detector::project_code::ProjectCodeDetector;
use crate::detector::contract_number::ContractNumberDetector;
use crate::detector::work_order::WorkOrderDetector;
use crate::detector::purchase_order::PurchaseOrderDetector;
use crate::detector::serial_number::SerialNumberDetector;
use crate::detector::cost_center::CostCenterDetector;
use crate::error::AnonymizeError;
use crate::normalizer::{MAX_INPUT_SIZE, normalize, normalized};
use crate::ordering::{lemma_order_prefix, order_prefix, stable_sorted};
use crate::replacement_engine::{
    Replacement, ReplacementEngine, ReplacementResult, Tally, category_count,
    category_views, first_seen, lemma_originals_restore, lemma_placeholders_unique,
    lemma_position_order, restored, listed, occurs, record_for, stem_of,
    substituted,
};
use crate::text::{bytes_of, lemma_bytes_of_injective};

verus! {

broadcast use vstd::string::group_string_axioms, vstd::seq::group_seq_axioms;

/// The version that reports carry.
pub const VERSION: &'static str = "0.1.0";

/// Anonymized text, its report, and the digest of the text.
pub struct AnonymizationOutput {
    pub text: String,
    pub report: AuditReport,
    pub hash: ContentHash,
}

/// An ordered, append-only collection of detectors.
pub struct Anonymizer<D> {
    detectors: Vec<D>,
}

/// Relies on `std::time::SystemTime::now` and chrono's conversion of a
/// `SystemTime` into a `DateTime<Utc>`, which maps a clock set before the
/// Unix epoch to a negative timestamp: the current time in milliseconds
/// since the epoch. Nothing is known of the value.
#[verifier::external_body]
fn current_millis() -> i64 {
    chrono::DateTime::<chrono::Utc>::from(std::time::SystemTime::now()).timestamp_millis()
}

/// The candidates of the first `k` detectors over `text`, in turn.
pub open spec fn detected<D: Detector>(engine: &Anonymizer<D>, text: Seq<char>, k: int) -> Seq<CandidateView>
    decreases k,
{
    if k <= 0 {
        seq![]
    } else {
        detected(engine, text, k - 1) + engine.detector_at(k - 1).spec_detect(text)
    }
}

/// `entry` names one of the categories of `placed` and counts how many
/// candidates of `placed` have it.
pub open spec fn counted_entry(entry: (String, usize), placed: Seq<CandidateView>) -> bool {
    exists|k: int|
        0 <= k < placed.len() && entry.0@ == category_name(#[trigger] placed[k].category) && entry.1
            == category_count(placed, placed.len() as int, placed[k].category)
}

/// `entries` name the categories of `placed` in order of first appearance,
/// each with its count.
pub open spec fn in_first_seen_order(entries: Seq<(String, usize)>, placed: Seq<CandidateView>) -> bool {
    let cats = first_seen(placed, placed.len() as int);
    &&& entries.len() == cats.len()
    &&& forall|t: int|
        0 <= t < entries.len() ==> (#[trigger] entries[t]).0@ == category_name(cats[t])
            && entries[t].1 == category_count(placed, placed.len() as int, cats[t])
}

/// One of `entries` names category `c`.
pub open spec fn entry_for(entries: Seq<(String, usize)>, c: CategoryView) -> bool {
    exists|t: int| 0 <= t < entries.len() && (#[trigger] entries[t]).0@ == category_name(c)
}

/// The report's records of the replacements.
fn records_of(replacements: &Vec<Replacement>) -> (r: Vec<ReplacementRecord>)
    ensures
        r@.len() == replacements@.len(),
        forall|k: int|
            0 <= k < r@.len() ==> (#[trigger] r@[k])@ == record_view_of(replacements@[k]@),
{
    let mut records: Vec<ReplacementRecord> = Vec::new();
    let mut k: usize = 0;
    while k < replacements.len()
        invariant
            k <= replacements@.len(),
            records@.len() == k,
            forall|j: int| 0 <= j < k ==> (#[trigger] records@[j])@ == record_view_of(replacements@[j]@),
        decreases replacements@.len() - k,
    {
        records.push(record_of(&replacements[k]));
        k += 1;
    }
    records
}

/// The categories of the replacements, counted.
fn tally_categories(replacements: &Vec<Replacement>, Ghost(placed): Ghost<Seq<CandidateView>>) -> (r: Tally)
    requires
        replacements@.len() == placed.len(),
        forall|j: int|
            0 <= j < placed.len() ==> (#[trigger] replacements@[j])@ == record_for(placed, j),
    ensures
        r.counts_first(placed, placed.len() as int),
{
    let mut tally = Tally::new();
    let n = replacements.len();
    let mut k: usize = 0;
    while k < n
        invariant
            n == replacements@.len(),
            n == placed.len(),
            k <= n,
            forall|j: int|
                0 <= j < n ==> (#[trigger] replacements@[j])@ == record_for(placed, j),
            tally.counts_first(placed, k as int),
        decreases n - k,
    {
        let rep = &replacements[k];
        assert(rep@ == record_for(placed, k as int));
        tally.bump(&rep.category, Ghost(placed), Ghost(k as int));
        k += 1;
    }
    tally
}

/// The number of replacements of each category, named as the report names
/// categories, in order of first appearance.
fn category_counts(replacements: &Vec<Replacement>, Ghost(placed): Ghost<Seq<CandidateView>>) -> (r: Vec<(String, usize)>)
    requires
        replacements@.len() == placed.len(),
        forall|j: int|
            0 <= j < placed.len() ==> (#[trigger] replacements@[j])@ == record_for(placed, j),
    ensures
        forall|t: int| 0 <= t < r@.len() ==> #[trigger] counted_entry(r@[t], placed),
        forall|k: int| 0 <= k < placed.len() ==> #[trigger] entry_for(r@, placed[k].category),
        in_first_seen_order(r@, placed),
{
    let tally = tally_categories(replacements, Ghost(placed));
    let ghost n = placed.len();
    let mut by_category: Vec<(String, usize)> = Vec::new();
    let mut t: usize = 0;
    while t < tally.cats.len()
        invariant
            tally.counts_first(placed, n as int),
            n == placed.len(),
            t <= tally.cats@.len(),
            tally.cats@.len() == tally.counts@.len(),
            by_category@.len() == t,
            forall|u: int|
                0 <= u < t ==> (#[trigger] by_category@[u]).0@ == category_name(tally.cats@[u]@)
                    && by_category@[u].1 == tally.counts@[u],
        decreases tally.cats@.len() - t,
    {
        by_category.push((tally.cats[t].report_name(), tally.counts[t]));
        t += 1;
    }
    proof {
        let named = by_category@;
        assert forall|t: int| 0 <= t < named.len() implies (#[trigger] named[t]).0@ == category_name(
            first_seen(placed, n as int)[t],
        ) && named[t].1 == category_count(placed, n as int, first_seen(placed, n as int)[t]) by {
            assert(category_views(tally.cats@)[t] == tally.cats@[t]@);
        }
        assert forall|u: int| 0 <= u < named.len() implies #[trigger] counted_entry(named[u], placed) by {
            assert(occurs(placed, n as int, tally.cats@[u]@));
            let j = choose|j: int| 0 <= j < n && (#[trigger] placed[j]).category == tally.cats@[u]@;
            assert(tally.counts@[u] == category_count(placed, n as int, tally.cats@[u]@));
        }
        assert forall|j: int| 0 <= j < placed.len() implies #[trigger] entry_for(named, placed[j].category) by {
            assert(listed(tally.cats@, placed[j].category));
            let u = choose|u: int|
                0 <= u < tally.cats@.len() && (#[trigger] tally.cats@[u])@ == placed[j].category;
            assert(named[u].0@ == category_name(tally.cats@[u]@));
        }
    }
    by_category
}

impl<D: Detector> Anonymizer<D> {
    /// How many detectors the engine holds.
    pub closed spec fn detector_count(&self) -> nat {
        self.detectors@.len()
    }

    /// The `i`-th detector added.
    pub closed spec fn detector_at(&self, i: int) -> D {
        self.detectors@[i]
    }

    /// Every detector's candidates over the normalized form of `raw`.
    pub open spec fn candidates(&self, raw: Seq<char>) -> Seq<CandidateView> {
        detected(self, normalized(raw), self.detector_count() as int)
    }

    /// The resolved candidates of `raw`, in text order.
    pub open spec fn placed(&self, raw: Seq<char>) -> Seq<CandidateView> {
        stable_sorted(false, resolved(self.candidates(raw)))
    }

    /// `out` is what anonymizing `raw` gives: the normalized text with the
    /// resolved spans replaced, one record per replacement, the counts and
    /// the digests. Only the timestamp and the processing time are left open.
    pub open spec fn describes(&self, raw: Seq<char>, out: AnonymizationOutput) -> bool {
        let cands = self.candidates(raw);
        let kept = resolved(cands);
        let placed = self.placed(raw);
        let stats = out.report.statistics;
        &&& bytes_of(out.text@) == substituted(bytes_of(normalized(raw)), placed, 0, 0)
        &&& out.report.replacements@.len() == placed.len()
        &&& forall|k: int|
            0 <= k < placed.len() ==> (#[trigger] out.report.replacements@[k])@
                == record_view_of(record_for(placed, k))
        &&& stats.total_matches == kept.len()
        &&& stats.conflicts_resolved == cands.len() - kept.len()
        &&& forall|t: int|
            0 <= t < stats.matches_by_category@.len() ==> #[trigger] counted_entry(
                stats.matches_by_category@[t],
                placed,
            )
        &&& forall|k: int|
            0 <= k < placed.len() ==> #[trigger] entry_for(
                stats.matches_by_category@,
                placed[k].category,
            )
        &&& in_first_seen_order(stats.matches_by_category@, placed)
        &&& out.report.version@ == VERSION@
        &&& out.report.config_hash@ == "default"@
        &&& out.report.input_hash@ == sha256_hex(bytes_of(raw))
        &&& out.hash.algorithm@ == "SHA-256"@
        &&& out.hash.value@ == sha256_hex(bytes_of(out.text@))
    }

    /// An engine with no detectors.
    pub fn new() -> (r: Self)
        ensures
            r.detector_count() == 0,
    {
        Anonymizer { detectors: Vec::new() }
    }

    /// Adds a detector after those already held.
    pub fn add_detector(&mut self, detector: D)
        ensures
            final(self).detector_count() == old(self).detector_count() + 1,
            final(self).detector_at(old(self).detector_count() as int) == detector,
            forall|i: int|
                0 <= i < old(self).detector_count() ==> #[trigger] final(self).detector_at(i)
                    == old(self).detector_at(i),
    {
        self.detectors.push(detector);
    }

    /// Every detector's candidates over `content`, detector by detector.
    fn collect_candidates(&self, content: &str) -> (r: Vec<CandidateMatch>)
        ensures
            views(r@) == detected(self, content@, self.detector_count() as int),
            forall|j: int| 0 <= j < r@.len() ==> fits_text(#[trigger] r@[j]@, content@),
    {
        let mut all: Vec<CandidateMatch> = Vec::new();
        let mut i: usize = 0;
        while i < self.detectors.len()
            invariant
                i <= self.detectors@.len(),
                views(all@) == detected(self, content@, i as int),
                forall|j: int| 0 <= j < all@.len() ==> fits_text(#[trigger] all@[j]@, content@),
            decreases self.detectors@.len() - i,
        {
            let mut found = self.detectors[i].detect(content);
            let ghost before = all@;
            let ghost added = found@;
            all.append(&mut found);
            assert(all@ == before + added);
            assert(views(all@) =~= views(before) + views(added));
            assert forall|j: int| 0 <= j < all@.len() implies fits_text(#[trigger] all@[j]@, content@) by {
                if j >= before.len() {
                    assert(all@[j] == added[j - before.len()]);
                }
            }
            i += 1;
        }
        all
    }

    /// Detects, resolves and replaces in normalized text; also returns the
    /// number of candidates before and after resolution.
    fn redact(&self, content: &str) -> (r: (ReplacementResult, usize, usize))
        ensures
            ({
                let cands = detected(self, content@, self.detector_count() as int);
                let placed = stable_sorted(false, resolved(cands));
                &&& r.1 == cands.len()
                &&& r.2 == resolved(cands).len()
                &&& r.2 <= r.1
                &&& r.0.replacements@.len() == placed.len()
                &&& forall|k: int|
                    0 <= k < placed.len() ==> (#[trigger] r.0.replacements@[k])@ == record_for(placed, k)
                &&& bytes_of(r.0.anonymized_text@) == substituted(bytes_of(content@), placed, 0, 0)
            }),
    {
        let all = self.collect_candidates(content);
        let ghost cands = views(all@);
        let ghost all_v = all@;
        let initial_count = all.len();
        proof {
            reveal(span_fits);
            assert forall|j: int| 0 <= j < all@.len() implies (#[trigger] all@[j]).span.start
                <= all@[j].span.end by {
                assert(fits_text(all@[j]@, content@));
            }
        }
        let kept = ConflictResolver::resolve(all);
        let final_count = kept.len();
        proof {
            reveal(span_fits);
            let kv = views(kept@);
            assert forall|j: int| 0 <= j < kept@.len() implies span_fits((#[trigger] kept@[j]).span, content@) by {
                let t = choose|t: int| 0 <= t < all_v.len() && (#[trigger] kept@[j])@ == (#[trigger] all_v[t])@;
                assert(fits_text(all_v[t]@, content@));
            }
            assert forall|j: int| 0 <= j < kv.len() implies (#[trigger] kv[j]).span.start <= kv[j].span.end by {
                assert(span_fits(kept@[j].span, content@));
            }
            lemma_chain_non_overlapping(kv);
        }
        let result = ReplacementEngine::replace(content, kept);
        (result, initial_count, final_count)
    }

    /// Normalizes `text`, runs every detector, resolves conflicts, replaces
    /// the kept matches and reports what was done.
    pub fn anonymize(&self, text: &str) -> (r: Result<AnonymizationOutput, AnonymizeError>)
        ensures
            bytes_of(text@).len() > MAX_INPUT_SIZE <==> r is Err,
            r is Err ==> r == Err::<AnonymizationOutput, AnonymizeError>(
                AnonymizeError::InputTooLarge {
                    size: bytes_of(text@).len() as usize,
                    max: MAX_INPUT_SIZE,
                },
            ),
            r is Ok ==> self.describes(text@, r->Ok_0),
    {
        let start = current_millis();
        let normalized_text = match normalize(text) {
            Ok(n) => n,
            Err(e) => {
                return Err(e);
            },
        };
        let content = normalized_text.content;
        let (result, initial_count, final_count) = self.redact(content.as_str());
        let conflicts_resolved = initial_count - final_count;
        let ghost placed = self.placed(text@);
        let input_hash = sha256_hex_of(text);
        let output_hash = sha256_hex_of(result.anonymized_text.as_str());
        let records = records_of(&result.replacements);
        let by_category = category_counts(&result.replacements, Ghost(placed));
        let end = current_millis();
        let processing_time_ms: u64 = if start >= 0 && end >= start {
            (end - start) as u64
        } else {
            0
        };
        let report = AuditReport {
            version: VERSION.to_string(),
            timestamp: start,
            input_hash,
            config_hash: "default".to_string(),
            statistics: Statistics {
                total_matches: final_count,
                matches_by_category: by_category,
                conflicts_resolved,
                processing_time_ms,
            },
            replacements: records,
        };
        Ok(
            AnonymizationOutput {
                text: result.anonymized_text,
                report,
                hash: ContentHash { algorithm: "SHA-256".to_string(), value: output_hash },
            },
        )
    }
}

/// The identifiers of the built-in detectors, in registration order.
pub open spec fn default_detector_ids() -> Seq<Seq<char>> {
    seq!["email"@, "phone"@, "dni"@, "iban"@, "credit_card"@, "ssn"@, "project_code"@, "contract_number"@, "work_order"@, "purchase_order"@, "serial_number"@, "cost_center"@]
}

/// An engine holding every built-in detector: personal data first
/// (email, phone, Spanish identifiers, IBAN, card, SSN), then corporate codes.
pub fn create_anonymizer() -> (r: Anonymizer<BuiltinDetector>)
    ensures
        r.detector_count() == default_detector_ids().len(),
        forall|i: int|
            0 <= i < default_detector_ids().len() ==> (#[trigger] r.detector_at(i)).spec_id()
                == default_detector_ids()[i],
{
    let mut engine = Anonymizer::new();
    engine.add_detector(BuiltinDetector::Email(EmailDetector::new()));
    engine.add_detector(BuiltinDetector::Phone(PhoneDetector::new()));
    engine.add_detector(BuiltinDetector::Dni(DniDetector::new()));
    engine.add_detector(BuiltinDetector::Iban(IbanDetector::new()));
    engine.add_detector(BuiltinDetector::CreditCard(CreditCardDetector::new()));
    engine.add_detector(BuiltinDetector::Ssn(SsnDetector::new()));
    engine.add_detector(BuiltinDetector::ProjectCode(ProjectCodeDetector::new()));
    engine.add_detector(BuiltinDetector::ContractNumber(ContractNumberDetector::new()));
    engine.add_detector(BuiltinDetector::WorkOrder(WorkOrderDetector::new()));
    engine.add_detector(BuiltinDetector::PurchaseOrder(PurchaseOrderDetector::new()));
    engine.add_detector(BuiltinDetector::SerialNumber(SerialNumberDetector::new()));
    engine.add_detector(BuiltinDetector::CostCenter(CostCenterDetector::new()));
    engine
}

/// Two runs of the same engine on the same input agree on everything but
/// the timestamp and the processing time: text, records, counts, category
/// counts and digests.
pub proof fn lemma_runs_agree<D: Detector>(
    engine: &Anonymizer<D>,
    raw: Seq<char>,
    first: AnonymizationOutput,
    second: AnonymizationOutput,
)
    requires
        engine.describes(raw, first),
        engine.describes(raw, second),
    ensures
        first.text@ == second.text@,
        first.report.replacements@.len() == second.report.replacements@.len(),
        forall|k: int|
            0 <= k < first.report.replacements@.len() ==> (#[trigger] first.report.replacements@[k])@
                == second.report.replacements@[k]@,
        first.report.statistics.total_matches == second.report.statistics.total_matches,
        first.report.statistics.conflicts_resolved == second.report.statistics.conflicts_resolved,
        first.report.input_hash@ == second.report.input_hash@,
        first.report.version@ == second.report.version@,
        first.report.config_hash@ == second.report.config_hash@,
        first.hash.value@ == second.hash.value@,
        first.report.statistics.matches_by_category@.len()
            == second.report.statistics.matches_by_category@.len(),
        forall|t: int|
            0 <= t < first.report.statistics.matches_by_category@.len() ==> (
            #[trigger] first.report.statistics.matches_by_category@[t]).0@
                == second.report.statistics.matches_by_category@[t].0@
                && first.report.statistics.matches_by_category@[t].1
                == second.report.statistics.matches_by_category@[t].1,
{
    lemma_bytes_of_injective(first.text@, second.text@);
    assert forall|k: int| 0 <= k < first.report.replacements@.len() implies (
    #[trigger] first.report.replacements@[k])@ == second.report.replacements@[k]@ by {
        assert(second.report.replacements@[k]@ == record_view_of(record_for(engine.placed(raw), k)));
    }
}

/// The report's spans are pairwise disjoint and strictly increasing in
/// start, when no detector proposes an empty span.
pub proof fn lemma_report_spans_ordered<D: Detector>(
    engine: &Anonymizer<D>,
    raw: Seq<char>,
    out: AnonymizationOutput,
)
    requires
        engine.describes(raw, out),
        forall|i: int|
            0 <= i < engine.candidates(raw).len() ==> (#[trigger] engine.candidates(raw)[i]).span.start
                < engine.candidates(raw)[i].span.end,
    ensures
        forall|i: int, j: int|
            0 <= i < j < out.report.replacements@.len() ==> (#[trigger] out.report.replacements@[i]).original_span.end
                <= (#[trigger] out.report.replacements@[j]).original_span.start
                && out.report.replacements@[i].original_span.start
                < out.report.replacements@[j].original_span.start,
{
    let cands = engine.candidates(raw);
    lemma_resolved_ordered(cands);
    let placed = engine.placed(raw);
    assert(placed == resolved(cands));
    assert forall|i: int, j: int|
        0 <= i < j < out.report.replacements@.len() implies (#[trigger] out.report.replacements@[i]).original_span.end
        <= (#[trigger] out.report.replacements@[j]).original_span.start
        && out.report.replacements@[i].original_span.start
        < out.report.replacements@[j].original_span.start by {
        assert(out.report.replacements@[i]@ == record_view_of(record_for(placed, i)));
        assert(out.report.replacements@[j]@ == record_view_of(record_for(placed, j)));
        assert(resolved(cands)[i].span.end <= resolved(cands)[j].span.start);
    }
}

/// The report's placeholders are unique, provided that replacements of
/// different categories have different stems.
pub proof fn lemma_report_placeholders_unique<D: Detector>(
    engine: &Anonymizer<D>,
    raw: Seq<char>,
    out: AnonymizationOutput,
    i: int,
    j: int,
)
    requires
        engine.describes(raw, out),
        0 <= i < j < out.report.replacements@.len(),
        forall|a: int, b: int|
            0 <= a < b < engine.placed(raw).len() && (#[trigger] engine.placed(raw)[a]).category
                != (#[trigger] engine.placed(raw)[b]).category ==> stem_of(
                engine.placed(raw)[a].category,
            ) != stem_of(engine.placed(raw)[b].category),
    ensures
        out.report.replacements@[i].placeholder@ != out.report.replacements@[j].placeholder@,
{
    let placed = engine.placed(raw);
    assert(out.report.replacements@[i]@ == record_view_of(record_for(placed, i)));
    assert(out.report.replacements@[j]@ == record_view_of(record_for(placed, j)));
    assert(placed[i].category != placed[j].category ==> stem_of(placed[i].category) != stem_of(
        placed[j].category,
    ));
    lemma_placeholders_unique(placed, i, j);
}

/// Splicing each record's original value back into its span gives back
/// the normalized text, when every candidate's raw value is what its span
/// covers; each record's original value is what its span covers.
pub proof fn lemma_report_restores<D: Detector>(
    engine: &Anonymizer<D>,
    raw: Seq<char>,
    out: AnonymizationOutput,
)
    requires
        engine.describes(raw, out),
        forall|i: int|
            0 <= i < engine.candidates(raw).len() ==> fits_text(
                #[trigger] engine.candidates(raw)[i],
                normalized(raw),
            ),
    ensures
        restored(bytes_of(normalized(raw)), engine.placed(raw), 0, 0) == bytes_of(normalized(raw)),
        forall|k: int|
            0 <= k < out.report.replacements@.len() ==> {
                let rec = (#[trigger] out.report.replacements@[k])@;
                &&& rec.original_value is Some
                &&& bytes_of(rec.original_value->0) == bytes_of(normalized(raw)).subrange(
                    rec.original_span.start as int,
                    rec.original_span.end as int,
                )
            },
{
    reveal(span_fits);
    let t = normalized(raw);
    let b = bytes_of(t);
    let cands = engine.candidates(raw);
    let kept = resolved(cands);
    let placed = engine.placed(raw);
    assert forall|i: int| 0 <= i < cands.len() implies (#[trigger] cands[i]).span.start
        <= cands[i].span.end by {
        assert(fits_text(cands[i], t));
    }
    lemma_resolved_from(cands);
    assert forall|i: int| 0 <= i < kept.len() implies fits_text(#[trigger] kept[i], t) by {
        let j = choose|j: int| 0 <= j < cands.len() && #[trigger] kept[i] == cands[j];
        assert(fits_text(cands[j], t));
    }
    assert forall|i: int| 0 <= i < kept.len() implies (#[trigger] kept[i]).span.start
        <= kept[i].span.end by {
        assert(fits_text(kept[i], t));
    }
    assert forall|i: int| 0 <= i < kept.len() implies span_fits((#[trigger] kept[i]).span, t) by {
        assert(fits_text(kept[i], t));
    }
    lemma_chain_non_overlapping(kept);
    lemma_position_order(kept, t);
    let n = kept.len() as int;
    lemma_order_prefix(false, kept, n);
    let p = order_prefix(false, kept, n);
    assert forall|k: int| 0 <= k < placed.len() implies fits_text(#[trigger] placed[k], t) by {
        assert(placed[k] == kept[p[k]]);
        assert(fits_text(kept[p[k]], t));
    }
    assert forall|k: int| 0 <= k < placed.len() implies (#[trigger] placed[k]).span.start
        <= placed[k].span.end <= b.len() by {
        assert(fits_text(placed[k], t));
    }
    assert forall|k: int| 0 <= k < placed.len() implies bytes_of((#[trigger] placed[k]).raw_value)
        == b.subrange(placed[k].span.start as int, placed[k].span.end as int) by {
        assert(fits_text(placed[k], t));
    }
    lemma_originals_restore(b, placed);
    assert forall|k: int| 0 <= k < out.report.replacements@.len() implies {
        let rec = (#[trigger] out.report.replacements@[k])@;
        &&& rec.original_value is Some
        &&& bytes_of(rec.original_value->0) == b.subrange(
            rec.original_span.start as int,
            rec.original_span.end as int,
        )
    } by {
        assert(out.report.replacements@[k]@ == record_view_of(record_for(placed, k)));
        assert(fits_text(placed[k], t));
    }
}

} // verus!
