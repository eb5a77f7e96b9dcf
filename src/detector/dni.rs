//! Spanish national (eight digits and a letter) and foreigner (X, Y or Z, seven digits and a letter) identifiers whose control letter is right.

use vstd::prelude::*;
use crate::detector::{
    CandidateMatch, CandidateView, Category, CategoryView, Detector, DetectorId, ValidationResult,
    views,
};
use crate::detector::pattern::pattern_hits;
use crate::detector::scan::{Check, Form, Rule, check_result, hit_candidates, run_check, scan};
use crate::text::{to_uppercase, upper_of};

verus! {

broadcast use vstd::string::group_string_axioms;

/// Pattern of DniDetector.
pub const DNI_PATTERN: &'static str = r"\b[0-9]{8}[A-Z]\b";

/// Pattern of DniDetector.
pub const NIE_PATTERN: &'static str = r"\b[XYZ][0-9]{7}[A-Z]\b";

/// Spanish national (eight digits and a letter) and foreigner (X, Y or Z, seven digits and a letter) identifiers whose control letter is right.
pub struct DniDetector;

/// The rule that DniDetector stamps on its candidates.
pub open spec fn rule_of_dni() -> Rule {
    Rule {
        id: "dni"@,
        category: CategoryView::NationalId,
        priority: 100,
        check: Check::SpanishId,
        form: Form::Upper,
    }
}

impl DniDetector {
    pub fn new() -> Self {
        DniDetector
    }
}

impl Detector for DniDetector {
    open spec fn spec_id(&self) -> Seq<char> {
        "dni"@
    }

    open spec fn spec_category(&self) -> CategoryView {
        CategoryView::NationalId
    }

    open spec fn spec_priority(&self) -> u32 {
        100
    }

    open spec fn spec_validate(&self, candidate: Seq<char>) -> ValidationResult {
        check_result(Check::SpanishId, candidate)
    }

    open spec fn spec_detect(&self, text: Seq<char>) -> Seq<CandidateView> {
        hit_candidates(text, pattern_hits(DNI_PATTERN@, text), rule_of_dni()) + hit_candidates(text, pattern_hits(NIE_PATTERN@, text), rule_of_dni())
    }

    fn id(&self) -> (r: DetectorId) {
        "dni".to_string()
    }

    fn category(&self) -> (r: Category) {
        Category::NationalId
    }

    fn detect(&self, text: &str) -> (r: Vec<CandidateMatch>) {
        let mut out: Vec<CandidateMatch> = Vec::new();
        scan(
            text,
            DNI_PATTERN,
            "dni",
            &Category::NationalId,
            100,
            Check::SpanishId,
            Form::Upper,
            &mut out,
        );
        scan(
            text,
            NIE_PATTERN,
            "dni",
            &Category::NationalId,
            100,
            Check::SpanishId,
            Form::Upper,
            &mut out,
        );
        proof {
            assert(views(out@) =~= self.spec_detect(text@));
        }
        out
    }

    fn validate(&self, candidate: &str) -> (r: ValidationResult) {
        run_check(Check::SpanishId, candidate)
    }

    fn priority(&self) -> (r: u32) {
        100
    }
}

/// A national identifier, upper-cased.
pub(crate) fn normalize_dni(dni: &str) -> (r: String)
    ensures
        r@ == upper_of(dni@),
{
    to_uppercase(dni)
}

} // verus!
