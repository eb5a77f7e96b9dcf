//! US social security numbers, `ddd-dd-dddd`.

use vstd::prelude::*;
use crate::detector::{
    CandidateMatch, CandidateView, Category, CategoryView, Detector, DetectorId, ValidationResult,
    views,
};
use crate::detector::pattern::pattern_hits;
use crate::detector::scan::{Check, Form, Rule, check_result, hit_candidates, run_check, scan};

verus! {

broadcast use vstd::string::group_string_axioms;

/// Pattern of SsnDetector.
pub const SSN_PATTERN: &'static str = r"\b[0-9]{3}-[0-9]{2}-[0-9]{4}\b";

/// US social security numbers, `ddd-dd-dddd`.
pub struct SsnDetector;

/// The rule that SsnDetector stamps on its candidates.
pub open spec fn rule_of_ssn() -> Rule {
    Rule {
        id: "ssn"@,
        category: CategoryView::NationalId,
        priority: 80,
        check: Check::Unchecked,
        form: Form::Absent,
    }
}

impl SsnDetector {
    pub fn new() -> Self {
        SsnDetector
    }
}

impl Default for SsnDetector {
    fn default() -> (r: Self)
        ensures
            r == (SsnDetector {}),
    {
        SsnDetector
    }
}

impl Detector for SsnDetector {
    open spec fn spec_id(&self) -> Seq<char> {
        "ssn"@
    }

    open spec fn spec_category(&self) -> CategoryView {
        CategoryView::NationalId
    }

    open spec fn spec_priority(&self) -> u32 {
        80
    }

    open spec fn spec_validate(&self, candidate: Seq<char>) -> ValidationResult {
        check_result(Check::Unchecked, candidate)
    }

    open spec fn spec_detect(&self, text: Seq<char>) -> Seq<CandidateView> {
        hit_candidates(text, pattern_hits(SSN_PATTERN@, text), rule_of_ssn())
    }

    fn id(&self) -> (r: DetectorId) {
        "ssn".to_string()
    }

    fn category(&self) -> (r: Category) {
        Category::NationalId
    }

    fn detect(&self, text: &str) -> (r: Vec<CandidateMatch>) {
        let mut out: Vec<CandidateMatch> = Vec::new();
        scan(
            text,
            SSN_PATTERN,
            "ssn",
            &Category::NationalId,
            80,
            Check::Unchecked,
            Form::Absent,
            &mut out,
        );
        proof {
            assert(views(out@) =~= self.spec_detect(text@));
        }
        out
    }

    fn validate(&self, candidate: &str) -> (r: ValidationResult) {
        run_check(Check::Unchecked, candidate)
    }

    fn priority(&self) -> (r: u32) {
        80
    }
}

} // verus!
