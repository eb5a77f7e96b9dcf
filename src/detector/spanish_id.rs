//! Spanish national and foreigner identifiers whose control letter is right.

use vstd::prelude::*;
use crate::detector::{
    CandidateMatch, CandidateView, Category, CategoryView, Detector, DetectorId, ValidationResult,
    views,
};
use crate::detector::pattern::pattern_hits;
use crate::detector::scan::{Check, Form, Rule, check_result, hit_candidates, run_check, scan};

verus! {

broadcast use vstd::string::group_string_axioms;

/// Pattern of SpanishIdDetector.
pub const NATIONAL_ID_PATTERN: &'static str = r"\b[0-9]{8}[A-Z]\b";

/// Pattern of SpanishIdDetector.
pub const FOREIGNER_ID_PATTERN: &'static str = r"\b[XYZ][0-9]{7}[A-Z]\b";

/// Spanish national and foreigner identifiers whose control letter is right.
pub struct SpanishIdDetector;

/// The rule that SpanishIdDetector stamps on its candidates.
pub open spec fn rule_of_spanish_id() -> Rule {
    Rule {
        id: "spanish_id"@,
        category: CategoryView::NationalId,
        priority: 100,
        check: Check::SpanishId,
        form: Form::Upper,
    }
}

impl SpanishIdDetector {
    pub fn new() -> Self {
        SpanishIdDetector
    }
}

impl Default for SpanishIdDetector {
    fn default() -> (r: Self)
        ensures
            r == (SpanishIdDetector {}),
    {
        SpanishIdDetector
    }
}

impl Detector for SpanishIdDetector {
    open spec fn spec_id(&self) -> Seq<char> {
        "spanish_id"@
    }

    open spec fn spec_category(&self) -> CategoryView {
        CategoryView::NationalId
    }

    open spec fn spec_priority(&self) -> u32 {
        100
    }

    open spec fn spec_validate(&self, candidate: Seq<char>) -> ValidationResult {
        check_result(Check::SpanishId, candidate)
    }

    open spec fn spec_detect(&self, text: Seq<char>) -> Seq<CandidateView> {
        hit_candidates(text, pattern_hits(NATIONAL_ID_PATTERN@, text), rule_of_spanish_id()) + hit_candidates(text, pattern_hits(FOREIGNER_ID_PATTERN@, text), rule_of_spanish_id())
    }

    fn id(&self) -> (r: DetectorId) {
        "spanish_id".to_string()
    }

    fn category(&self) -> (r: Category) {
        Category::NationalId
    }

    fn detect(&self, text: &str) -> (r: Vec<CandidateMatch>) {
        let mut out: Vec<CandidateMatch> = Vec::new();
        scan(
            text,
            NATIONAL_ID_PATTERN,
            "spanish_id",
            &Category::NationalId,
            100,
            Check::SpanishId,
            Form::Upper,
            &mut out,
        );
        scan(
            text,
            FOREIGNER_ID_PATTERN,
            "spanish_id",
            &Category::NationalId,
            100,
            Check::SpanishId,
            Form::Upper,
            &mut out,
        );
        proof {
            assert(views(out@) =~= self.spec_detect(text@));
        }
        out
    }

    fn validate(&self, candidate: &str) -> (r: ValidationResult) {
        run_check(Check::SpanishId, candidate)
    }

    fn priority(&self) -> (r: u32) {
        100
    }
}

} // verus!
