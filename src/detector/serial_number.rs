//! Serial numbers: `SN`, two letters, `-` and eight digits.

use vstd::prelude::*;
use crate::detector::{
    CandidateMatch, CandidateView, Category, CategoryView, Detector, DetectorId, ValidationResult,
    views,
};
use crate::detector::pattern::pattern_hits;
use crate::detector::scan::{Check, Form, Rule, check_result, hit_candidates, run_check, scan};

verus! {

broadcast use vstd::string::group_string_axioms;

/// Pattern of SerialNumberDetector.
pub const SERIAL_NUMBER_PATTERN: &'static str = r"\bSN[A-Z]{2}-[0-9]{8}\b";

/// Serial numbers: `SN`, two letters, `-` and eight digits.
pub struct SerialNumberDetector;

/// The rule that SerialNumberDetector stamps on its candidates.
pub open spec fn rule_of_serial_number() -> Rule {
    Rule {
        id: "serial_number"@,
        category: CategoryView::SerialNumber,
        priority: 60,
        check: Check::Unchecked,
        form: Form::Absent,
    }
}

impl SerialNumberDetector {
    pub fn new() -> Self {
        SerialNumberDetector
    }
}

impl Detector for SerialNumberDetector {
    open spec fn spec_id(&self) -> Seq<char> {
        "serial_number"@
    }

    open spec fn spec_category(&self) -> CategoryView {
        CategoryView::SerialNumber
    }

    open spec fn spec_priority(&self) -> u32 {
        60
    }

    open spec fn spec_validate(&self, candidate: Seq<char>) -> ValidationResult {
        check_result(Check::Unchecked, candidate)
    }

    open spec fn spec_detect(&self, text: Seq<char>) -> Seq<CandidateView> {
        hit_candidates(text, pattern_hits(SERIAL_NUMBER_PATTERN@, text), rule_of_serial_number())
    }

    fn id(&self) -> (r: DetectorId) {
        "serial_number".to_string()
    }

    fn category(&self) -> (r: Category) {
        Category::SerialNumber
    }

    fn detect(&self, text: &str) -> (r: Vec<CandidateMatch>) {
        let mut out: Vec<CandidateMatch> = Vec::new();
        scan(
            text,
            SERIAL_NUMBER_PATTERN,
            "serial_number",
            &Category::SerialNumber,
            60,
            Check::Unchecked,
            Form::Absent,
            &mut out,
        );
        proof {
            assert(views(out@) =~= self.spec_detect(text@));
        }
        out
    }

    fn validate(&self, candidate: &str) -> (r: ValidationResult) {
        run_check(Check::Unchecked, candidate)
    }

    fn priority(&self) -> (r: u32) {
        60
    }
}

} // verus!
