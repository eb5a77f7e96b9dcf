//! Email addresses: `local@domain.tld`.

use vstd::prelude::*;
use crate::detector::{
    CandidateMatch, CandidateView, Category, CategoryView, Detector, DetectorId, ValidationResult,
    views,
};
use crate::detector::pattern::pattern_hits;
use crate::detector::scan::{Check, Form, Rule, check_result, hit_candidates, run_check, scan};

verus! {

broadcast use vstd::string::group_string_axioms;

/// Pattern of EmailDetector.
pub const EMAIL_PATTERN: &'static str = r"[a-zA-Z0-9._%+-]+@[a-zA-Z0-9.-]+\.[a-zA-Z]{2,}";

/// Email addresses: `local@domain.tld`.
pub struct EmailDetector;

/// The rule that EmailDetector stamps on its candidates.
pub open spec fn rule_of_email() -> Rule {
    Rule {
        id: "email"@,
        category: CategoryView::Email,
        priority: 50,
        check: Check::Unchecked,
        form: Form::Absent,
    }
}

impl EmailDetector {
    pub fn new() -> Self {
        EmailDetector
    }
}

impl Detector for EmailDetector {
    open spec fn spec_id(&self) -> Seq<char> {
        "email"@
    }

    open spec fn spec_category(&self) -> CategoryView {
        CategoryView::Email
    }

    open spec fn spec_priority(&self) -> u32 {
        50
    }

    open spec fn spec_validate(&self, candidate: Seq<char>) -> ValidationResult {
        check_result(Check::Unchecked, candidate)
    }

    open spec fn spec_detect(&self, text: Seq<char>) -> Seq<CandidateView> {
        hit_candidates(text, pattern_hits(EMAIL_PATTERN@, text), rule_of_email())
    }

    fn id(&self) -> (r: DetectorId) {
        "email".to_string()
    }

    fn category(&self) -> (r: Category) {
        Category::Email
    }

    fn detect(&self, text: &str) -> (r: Vec<CandidateMatch>) {
        let mut out: Vec<CandidateMatch> = Vec::new();
        scan(
            text,
            EMAIL_PATTERN,
            "email",
            &Category::Email,
            50,
            Check::Unchecked,
            Form::Absent,
            &mut out,
        );
        proof {
            assert(views(out@) =~= self.spec_detect(text@));
        }
        out
    }

    fn validate(&self, candidate: &str) -> (r: ValidationResult) {
        run_check(Check::Unchecked, candidate)
    }

    fn priority(&self) -> (r: u32) {
        50
    }
}

} // verus!
