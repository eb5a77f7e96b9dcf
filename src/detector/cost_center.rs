//! Cost centers: `CC-` and four to eight digits.

use vstd::prelude::*;
use crate::detector::{
    CandidateMatch, CandidateView, Category, CategoryView, Detector, DetectorId, ValidationResult,
    views,
};
use crate::detector::pattern::pattern_hits;
use crate::detector::scan::{Check, Form, Rule, check_result, hit_candidates, run_check, scan};

verus! {

broadcast use vstd::string::group_string_axioms;

/// Pattern of CostCenterDetector.
pub const COST_CENTER_PATTERN: &'static str = r"\bCC-[0-9]{4,8}\b";

/// Cost centers: `CC-` and four to eight digits.
pub struct CostCenterDetector;

/// The rule that CostCenterDetector stamps on its candidates.
pub open spec fn rule_of_cost_center() -> Rule {
    Rule {
        id: "cost_center"@,
        category: CategoryView::CostCenter,
        priority: 60,
        check: Check::Unchecked,
        form: Form::Absent,
    }
}

impl CostCenterDetector {
    pub fn new() -> Self {
        CostCenterDetector
    }
}

impl Default for CostCenterDetector {
    fn default() -> (r: Self)
        ensures
            r == (CostCenterDetector {}),
    {
        CostCenterDetector
    }
}

impl Detector for CostCenterDetector {
    open spec fn spec_id(&self) -> Seq<char> {
        "cost_center"@
    }

    open spec fn spec_category(&self) -> CategoryView {
        CategoryView::CostCenter
    }

    open spec fn spec_priority(&self) -> u32 {
        60
    }

    open spec fn spec_validate(&self, candidate: Seq<char>) -> ValidationResult {
        check_result(Check::Unchecked, candidate)
    }

    open spec fn spec_detect(&self, text: Seq<char>) -> Seq<CandidateView> {
        hit_candidates(text, pattern_hits(COST_CENTER_PATTERN@, text), rule_of_cost_center())
    }

    fn id(&self) -> (r: DetectorId) {
        "cost_center".to_string()
    }

    fn category(&self) -> (r: Category) {
        Category::CostCenter
    }

    fn detect(&self, text: &str) -> (r: Vec<CandidateMatch>) {
        let mut out: Vec<CandidateMatch> = Vec::new();
        scan(
            text,
            COST_CENTER_PATTERN,
            "cost_center",
            &Category::CostCenter,
            60,
            Check::Unchecked,
            Form::Absent,
            &mut out,
        );
        proof {
            assert(views(out@) =~= self.spec_detect(text@));
        }
        out
    }

    fn validate(&self, candidate: &str) -> (r: ValidationResult) {
        run_check(Check::Unchecked, candidate)
    }

    fn priority(&self) -> (r: u32) {
        60
    }
}

} // verus!
