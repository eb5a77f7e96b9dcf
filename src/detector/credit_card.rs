//! Card numbers that pass the Luhn check.

use vstd::prelude::*;
use crate::detector::{
    CandidateMatch, CandidateView, Category, CategoryView, Detector, DetectorId, ValidationResult,
    views,
};
use crate::detector::pattern::pattern_hits;
use crate::detector::scan::{Check, Form, Rule, check_result, hit_candidates, run_check, scan};
use crate::detector::scan::digit_chars;
use crate::text::{chars_of, push_char};

verus! {

broadcast use vstd::string::group_string_axioms;

/// Pattern of CreditCardDetector.
pub const CREDIT_CARD_PATTERN: &'static str = r"\b[0-9]{4}[-\s]?[0-9]{4}[-\s]?[0-9]{4}[-\s]?[0-9]{4,7}\b";

/// Card numbers that pass the Luhn check.
pub struct CreditCardDetector;

/// The rule that CreditCardDetector stamps on its candidates.
pub open spec fn rule_of_credit_card() -> Rule {
    Rule {
        id: "credit_card"@,
        category: CategoryView::CreditCard,
        priority: 90,
        check: Check::Luhn,
        form: Form::CardDigits,
    }
}

impl CreditCardDetector {
    pub fn new() -> Self {
        CreditCardDetector
    }
}

impl Default for CreditCardDetector {
    fn default() -> (r: Self)
        ensures
            r == (CreditCardDetector {}),
    {
        CreditCardDetector
    }
}

impl Detector for CreditCardDetector {
    open spec fn spec_id(&self) -> Seq<char> {
        "credit_card"@
    }

    open spec fn spec_category(&self) -> CategoryView {
        CategoryView::CreditCard
    }

    open spec fn spec_priority(&self) -> u32 {
        90
    }

    open spec fn spec_validate(&self, candidate: Seq<char>) -> ValidationResult {
        check_result(Check::Luhn, candidate)
    }

    open spec fn spec_detect(&self, text: Seq<char>) -> Seq<CandidateView> {
        hit_candidates(text, pattern_hits(CREDIT_CARD_PATTERN@, text), rule_of_credit_card())
    }

    fn id(&self) -> (r: DetectorId) {
        "credit_card".to_string()
    }

    fn category(&self) -> (r: Category) {
        Category::CreditCard
    }

    fn detect(&self, text: &str) -> (r: Vec<CandidateMatch>) {
        let mut out: Vec<CandidateMatch> = Vec::new();
        scan(
            text,
            CREDIT_CARD_PATTERN,
            "credit_card",
            &Category::CreditCard,
            90,
            Check::Luhn,
            Form::CardDigits,
            &mut out,
        );
        proof {
            assert(views(out@) =~= self.spec_detect(text@));
        }
        out
    }

    fn validate(&self, candidate: &str) -> (r: ValidationResult) {
        run_check(Check::Luhn, candidate)
    }

    fn priority(&self) -> (r: u32) {
        90
    }
}

/// The ASCII digits of a card number.
pub(crate) fn normalize_card(card: &str) -> (r: String)
    ensures
        r@ == digit_chars(card@),
{
    let chars = chars_of(card);
    let mut out = String::new();
    let mut i: usize = 0;
    while i < chars.len()
        invariant
            i <= chars@.len(),
            chars@ == card@,
            out@ == digit_chars(chars@.take(i as int)),
        decreases chars@.len() - i,
    {
        let c = chars[i];
        assert(chars@.take(i + 1).drop_last() == chars@.take(i as int));
        if '0' <= c && c <= '9' {
            push_char(&mut out, c);
        }
        i += 1;
    }
    assert(chars@.take(chars@.len() as int) == chars@);
    out
}

} // verus!
