//! Project codes: `PRJ-`, `PROY-` or `P-`, four digits, optionally three or four more.

use vstd::prelude::*;
use crate::detector::{
    CandidateMatch, CandidateView, Category, CategoryView, Detector, DetectorId, ValidationResult,
    views,
};
use crate::detector::pattern::pattern_hits;
use crate::detector::scan::{Check, Form, Rule, check_result, hit_candidates, run_check, scan};

verus! {

broadcast use vstd::string::group_string_axioms;

/// Pattern of ProjectCodeDetector.
pub const PROJECT_CODE_PATTERN: &'static str = r"\b(?:PRJ|PROY|P)-[0-9]{4}(?:-[0-9]{3,4})?\b";

/// Project codes: `PRJ-`, `PROY-` or `P-`, four digits, optionally three or four more.
pub struct ProjectCodeDetector;

/// The rule that ProjectCodeDetector stamps on its candidates.
pub open spec fn rule_of_project_code() -> Rule {
    Rule {
        id: "project_code"@,
        category: CategoryView::ProjectCode,
        priority: 70,
        check: Check::Unchecked,
        form: Form::Absent,
    }
}

impl ProjectCodeDetector {
    pub fn new() -> Self {
        ProjectCodeDetector
    }
}

impl Default for ProjectCodeDetector {
    fn default() -> (r: Self)
        ensures
            r == (ProjectCodeDetector {}),
    {
        ProjectCodeDetector
    }
}

impl Detector for ProjectCodeDetector {
    open spec fn spec_id(&self) -> Seq<char> {
        "project_code"@
    }

    open spec fn spec_category(&self) -> CategoryView {
        CategoryView::ProjectCode
    }

    open spec fn spec_priority(&self) -> u32 {
        70
    }

    open spec fn spec_validate(&self, candidate: Seq<char>) -> ValidationResult {
        check_result(Check::Unchecked, candidate)
    }

    open spec fn spec_detect(&self, text: Seq<char>) -> Seq<CandidateView> {
        hit_candidates(text, pattern_hits(PROJECT_CODE_PATTERN@, text), rule_of_project_code())
    }

    fn id(&self) -> (r: DetectorId) {
        "project_code".to_string()
    }

    fn category(&self) -> (r: Category) {
        Category::ProjectCode
    }

    fn detect(&self, text: &str) -> (r: Vec<CandidateMatch>) {
        let mut out: Vec<CandidateMatch> = Vec::new();
        scan(
            text,
            PROJECT_CODE_PATTERN,
            "project_code",
            &Category::ProjectCode,
            70,
            Check::Unchecked,
            Form::Absent,
            &mut out,
        );
        proof {
            assert(views(out@) =~= self.spec_detect(text@));
        }
        out
    }

    fn validate(&self, candidate: &str) -> (r: ValidationResult) {
        run_check(Check::Unchecked, candidate)
    }

    fn priority(&self) -> (r: u32) {
        70
    }
}

} // verus!
