//! Contract numbers: `CTR-`, `CONT-` or `CONTRACT-`, four digits, then four to eight.

use vstd::prelude::*;
use crate::detector::{
    CandidateMatch, CandidateView, Category, CategoryView, Detector, DetectorId, ValidationResult,
    views,
};
use crate::detector::pattern::pattern_hits;
use crate::detector::scan::{Check, Form, Rule, check_result, hit_candidates, run_check, scan};

verus! {

broadcast use vstd::string::group_string_axioms;

/// Pattern of ContractNumberDetector.
pub const CONTRACT_NUMBER_PATTERN: &'static str = r"\b(?:CTR|CONT|CONTRACT)-[0-9]{4}-[0-9]{4,8}\b";

/// Contract numbers: `CTR-`, `CONT-` or `CONTRACT-`, four digits, then four to eight.
pub struct ContractNumberDetector;

/// The rule that ContractNumberDetector stamps on its candidates.
pub open spec fn rule_of_contract_number() -> Rule {
    Rule {
        id: "contract_number"@,
        category: CategoryView::ContractNumber,
        priority: 70,
        check: Check::Unchecked,
        form: Form::Absent,
    }
}

impl ContractNumberDetector {
    pub fn new() -> Self {
        ContractNumberDetector
    }
}

impl Detector for ContractNumberDetector {
    open spec fn spec_id(&self) -> Seq<char> {
        "contract_number"@
    }

    open spec fn spec_category(&self) -> CategoryView {
        CategoryView::ContractNumber
    }

    open spec fn spec_priority(&self) -> u32 {
        70
    }

    open spec fn spec_validate(&self, candidate: Seq<char>) -> ValidationResult {
        check_result(Check::Unchecked, candidate)
    }

    open spec fn spec_detect(&self, text: Seq<char>) -> Seq<CandidateView> {
        hit_candidates(text, pattern_hits(CONTRACT_NUMBER_PATTERN@, text), rule_of_contract_number())
    }

    fn id(&self) -> (r: DetectorId) {
        "contract_number".to_string()
    }

    fn category(&self) -> (r: Category) {
        Category::ContractNumber
    }

    fn detect(&self, text: &str) -> (r: Vec<CandidateMatch>) {
        let mut out: Vec<CandidateMatch> = Vec::new();
        scan(
            text,
            CONTRACT_NUMBER_PATTERN,
            "contract_number",
            &Category::ContractNumber,
            70,
            Check::Unchecked,
            Form::Absent,
            &mut out,
        );
        proof {
            assert(views(out@) =~= self.spec_detect(text@));
        }
        out
    }

    fn validate(&self, candidate: &str) -> (r: ValidationResult) {
        run_check(Check::Unchecked, candidate)
    }

    fn priority(&self) -> (r: u32) {
        70
    }
}

} // verus!
