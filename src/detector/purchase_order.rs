//! Purchase orders: `PO-`, `OC-` or `PC-` and six to twelve digits.

use vstd::prelude::*;
use crate::detector::{
    CandidateMatch, CandidateView, Category, CategoryView, Detector, DetectorId, ValidationResult,
    views,
};
use crate::detector::pattern::pattern_hits;
use crate::detector::scan::{Check, Form, Rule, check_result, hit_candidates, run_check, scan};

verus! {

broadcast use vstd::string::group_string_axioms;

/// Pattern of PurchaseOrderDetector.
pub const PURCHASE_ORDER_PATTERN: &'static str = r"\b(?:PO|OC|PC)-[0-9]{6,12}\b";

/// Purchase orders: `PO-`, `OC-` or `PC-` and six to twelve digits.
pub struct PurchaseOrderDetector;

/// The rule that PurchaseOrderDetector stamps on its candidates.
pub open spec fn rule_of_purchase_order() -> Rule {
    Rule {
        id: "purchase_order"@,
        category: CategoryView::PurchaseOrder,
        priority: 70,
        check: Check::Unchecked,
        form: Form::Absent,
    }
}

impl PurchaseOrderDetector {
    pub fn new() -> Self {
        PurchaseOrderDetector
    }
}

impl Default for PurchaseOrderDetector {
    fn default() -> (r: Self)
        ensures
            r == (PurchaseOrderDetector {}),
    {
        PurchaseOrderDetector
    }
}

impl Detector for PurchaseOrderDetector {
    open spec fn spec_id(&self) -> Seq<char> {
        "purchase_order"@
    }

    open spec fn spec_category(&self) -> CategoryView {
        CategoryView::PurchaseOrder
    }

    open spec fn spec_priority(&self) -> u32 {
        70
    }

    open spec fn spec_validate(&self, candidate: Seq<char>) -> ValidationResult {
        check_result(Check::Unchecked, candidate)
    }

    open spec fn spec_detect(&self, text: Seq<char>) -> Seq<CandidateView> {
        hit_candidates(text, pattern_hits(PURCHASE_ORDER_PATTERN@, text), rule_of_purchase_order())
    }

    fn id(&self) -> (r: DetectorId) {
        "purchase_order".to_string()
    }

    fn category(&self) -> (r: Category) {
        Category::PurchaseOrder
    }

    fn detect(&self, text: &str) -> (r: Vec<CandidateMatch>) {
        let mut out: Vec<CandidateMatch> = Vec::new();
        scan(
            text,
            PURCHASE_ORDER_PATTERN,
            "purchase_order",
            &Category::PurchaseOrder,
            70,
            Check::Unchecked,
            Form::Absent,
            &mut out,
        );
        proof {
            assert(views(out@) =~= self.spec_detect(text@));
        }
        out
    }

    fn validate(&self, candidate: &str) -> (r: ValidationResult) {
        run_check(Check::Unchecked, candidate)
    }

    fn priority(&self) -> (r: u32) {
        70
    }
}

} // verus!
