//! Work orders: `WO-`, `OT-` or `OdT-` and four to ten digits.

use vstd::prelude::*;
use crate::detector::{
    CandidateMatch, CandidateView, Category, CategoryView, Detector, DetectorId, ValidationResult,
    views,
};
use crate::detector::pattern::pattern_hits;
use crate::detector::scan::{Check, Form, Rule, check_result, hit_candidates, run_check, scan};

verus! {

broadcast use vstd::string::group_string_axioms;

/// Pattern of WorkOrderDetector.
pub const WORK_ORDER_PATTERN: &'static str = r"\b(?:WO|OT|OdT)-[0-9]{4,10}\b";

/// Work orders: `WO-`, `OT-` or `OdT-` and four to ten digits.
pub struct WorkOrderDetector;

/// The rule that WorkOrderDetector stamps on its candidates.
pub open spec fn rule_of_work_order() -> Rule {
    Rule {
        id: "work_order"@,
        category: CategoryView::WorkOrder,
        priority: 70,
        check: Check::Unchecked,
        form: Form::Absent,
    }
}

impl WorkOrderDetector {
    pub fn new() -> Self {
        WorkOrderDetector
    }
}

impl Detector for WorkOrderDetector {
    open spec fn spec_id(&self) -> Seq<char> {
        "work_order"@
    }

    open spec fn spec_category(&self) -> CategoryView {
        CategoryView::WorkOrder
    }

    open spec fn spec_priority(&self) -> u32 {
        70
    }

    open spec fn spec_validate(&self, candidate: Seq<char>) -> ValidationResult {
        check_result(Check::Unchecked, candidate)
    }

    open spec fn spec_detect(&self, text: Seq<char>) -> Seq<CandidateView> {
        hit_candidates(text, pattern_hits(WORK_ORDER_PATTERN@, text), rule_of_work_order())
    }

    fn id(&self) -> (r: DetectorId) {
        "work_order".to_string()
    }

    fn category(&self) -> (r: Category) {
        Category::WorkOrder
    }

    fn detect(&self, text: &str) -> (r: Vec<CandidateMatch>) {
        let mut out: Vec<CandidateMatch> = Vec::new();
        scan(
            text,
            WORK_ORDER_PATTERN,
            "work_order",
            &Category::WorkOrder,
            70,
            Check::Unchecked,
            Form::Absent,
            &mut out,
        );
        proof {
            assert(views(out@) =~= self.spec_detect(text@));
        }
        out
    }

    fn validate(&self, candidate: &str) -> (r: ValidationResult) {
        run_check(Check::Unchecked, candidate)
    }

    fn priority(&self) -> (r: u32) {
        70
    }
}

} // verus!
