//! IBANs that pass the mod 97-10 check.

use vstd::prelude::*;
use crate::detector::{
    CandidateMatch, CandidateView, Category, CategoryView, Detector, DetectorId, ValidationResult,
    views,
};
use crate::detector::pattern::pattern_hits;
use crate::detector::scan::{Check, Form, Rule, check_result, hit_candidates, run_check, scan};
use crate::checksum::{alphanumerics, is_alphanumeric};
use crate::text::{chars_of, push_char, to_uppercase, upper_of};

verus! {

broadcast use vstd::string::group_string_axioms;

/// Pattern of IbanDetector.
pub const IBAN_PATTERN: &'static str = r"\b[A-Z]{2}[0-9]{2}[A-Z0-9\s-]{15,30}\b";

/// IBANs that pass the mod 97-10 check.
pub struct IbanDetector;

/// The rule that IbanDetector stamps on its candidates.
pub open spec fn rule_of_iban() -> Rule {
    Rule {
        id: "iban"@,
        category: CategoryView::Iban,
        priority: 100,
        check: Check::Iban,
        form: Form::IbanUpper,
    }
}

impl IbanDetector {
    pub fn new() -> Self {
        IbanDetector
    }
}

impl Default for IbanDetector {
    fn default() -> (r: Self)
        ensures
            r == (IbanDetector {}),
    {
        IbanDetector
    }
}

impl Detector for IbanDetector {
    open spec fn spec_id(&self) -> Seq<char> {
        "iban"@
    }

    open spec fn spec_category(&self) -> CategoryView {
        CategoryView::Iban
    }

    open spec fn spec_priority(&self) -> u32 {
        100
    }

    open spec fn spec_validate(&self, candidate: Seq<char>) -> ValidationResult {
        check_result(Check::Iban, candidate)
    }

    open spec fn spec_detect(&self, text: Seq<char>) -> Seq<CandidateView> {
        hit_candidates(text, pattern_hits(IBAN_PATTERN@, text), rule_of_iban())
    }

    fn id(&self) -> (r: DetectorId) {
        "iban".to_string()
    }

    fn category(&self) -> (r: Category) {
        Category::Iban
    }

    fn detect(&self, text: &str) -> (r: Vec<CandidateMatch>) {
        let mut out: Vec<CandidateMatch> = Vec::new();
        scan(
            text,
            IBAN_PATTERN,
            "iban",
            &Category::Iban,
            100,
            Check::Iban,
            Form::IbanUpper,
            &mut out,
        );
        proof {
            assert(views(out@) =~= self.spec_detect(text@));
        }
        out
    }

    fn validate(&self, candidate: &str) -> (r: ValidationResult) {
        run_check(Check::Iban, candidate)
    }

    fn priority(&self) -> (r: u32) {
        100
    }
}

/// The alphanumeric characters of an IBAN, upper-cased.
pub(crate) fn normalize_iban(iban: &str) -> (r: String)
    ensures
        r@ == upper_of(alphanumerics(iban@)),
{
    let chars = chars_of(iban);
    let mut kept = String::new();
    let mut i: usize = 0;
    while i < chars.len()
        invariant
            i <= chars@.len(),
            chars@ == iban@,
            kept@ == alphanumerics(chars@.take(i as int)),
        decreases chars@.len() - i,
    {
        let c = chars[i];
        assert(chars@.take(i + 1).drop_last() == chars@.take(i as int));
        if is_alphanumeric(c) {
            push_char(&mut kept, c);
        }
        i += 1;
    }
    assert(chars@.take(chars@.len() as int) == chars@);
    to_uppercase(kept.as_str())
}

} // verus!
