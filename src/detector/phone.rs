//! Phone numbers in Spanish, US, UK and E.164 forms.

use vstd::prelude::*;
use crate::detector::{
    CandidateMatch, CandidateView, Category, CategoryView, Detector, DetectorId, ValidationResult,
    views,
};
use crate::detector::pattern::pattern_hits;
use crate::detector::scan::{Check, Form, Rule, check_result, hit_candidates, run_check, scan};
use crate::detector::scan::phone_chars;
use crate::text::{chars_of, push_char};

verus! {

broadcast use vstd::string::group_string_axioms;

/// Pattern of PhoneDetector.
pub const SPANISH_PHONE_PATTERN: &'static str = r"(?:\+34[-\s]?)?[679][0-9]{2}[-\s]?[0-9]{3}[-\s]?[0-9]{3}";

/// Pattern of PhoneDetector.
pub const US_PHONE_PATTERN: &'static str = r"(?:\+1[-\s]?)?\(?\d{3}\)?[-\s]?\d{3}[-\s]?\d{4}";

/// Pattern of PhoneDetector.
pub const UK_PHONE_PATTERN: &'static str = r"(?:\+44[-\s]?)?[127][0-9]{3}[-\s]?[0-9]{6}";

/// Pattern of PhoneDetector.
pub const E164_PHONE_PATTERN: &'static str = r"\+[1-9]\d{1,14}";

/// Phone numbers in Spanish, US, UK and E.164 forms.
pub struct PhoneDetector;

/// The rule that PhoneDetector stamps on its candidates.
pub open spec fn rule_of_phone() -> Rule {
    Rule {
        id: "phone"@,
        category: CategoryView::Phone,
        priority: 50,
        check: Check::Unchecked,
        form: Form::PhoneDigits,
    }
}

impl PhoneDetector {
    pub fn new() -> Self {
        PhoneDetector
    }
}

impl Detector for PhoneDetector {
    open spec fn spec_id(&self) -> Seq<char> {
        "phone"@
    }

    open spec fn spec_category(&self) -> CategoryView {
        CategoryView::Phone
    }

    open spec fn spec_priority(&self) -> u32 {
        50
    }

    open spec fn spec_validate(&self, candidate: Seq<char>) -> ValidationResult {
        check_result(Check::Unchecked, candidate)
    }

    open spec fn spec_detect(&self, text: Seq<char>) -> Seq<CandidateView> {
        hit_candidates(text, pattern_hits(SPANISH_PHONE_PATTERN@, text), rule_of_phone()) + hit_candidates(text, pattern_hits(US_PHONE_PATTERN@, text), rule_of_phone()) + hit_candidates(text, pattern_hits(UK_PHONE_PATTERN@, text), rule_of_phone()) + hit_candidates(text, pattern_hits(E164_PHONE_PATTERN@, text), rule_of_phone())
    }

    fn id(&self) -> (r: DetectorId) {
        "phone".to_string()
    }

    fn category(&self) -> (r: Category) {
        Category::Phone
    }

    fn detect(&self, text: &str) -> (r: Vec<CandidateMatch>) {
        let mut out: Vec<CandidateMatch> = Vec::new();
        scan(
            text,
            SPANISH_PHONE_PATTERN,
            "phone",
            &Category::Phone,
            50,
            Check::Unchecked,
            Form::PhoneDigits,
            &mut out,
        );
        scan(
            text,
            US_PHONE_PATTERN,
            "phone",
            &Category::Phone,
            50,
            Check::Unchecked,
            Form::PhoneDigits,
            &mut out,
        );
        scan(
            text,
            UK_PHONE_PATTERN,
            "phone",
            &Category::Phone,
            50,
            Check::Unchecked,
            Form::PhoneDigits,
            &mut out,
        );
        scan(
            text,
            E164_PHONE_PATTERN,
            "phone",
            &Category::Phone,
            50,
            Check::Unchecked,
            Form::PhoneDigits,
            &mut out,
        );
        proof {
            assert(views(out@) =~= self.spec_detect(text@));
        }
        out
    }

    fn validate(&self, candidate: &str) -> (r: ValidationResult) {
        run_check(Check::Unchecked, candidate)
    }

    fn priority(&self) -> (r: u32) {
        50
    }
}

/// The ASCII digits and `+` signs of a phone number.
pub(crate) fn normalize_phone(phone: &str) -> (r: String)
    ensures
        r@ == phone_chars(phone@),
{
    let chars = chars_of(phone);
    let mut out = String::new();
    let mut i: usize = 0;
    while i < chars.len()
        invariant
            i <= chars@.len(),
            chars@ == phone@,
            out@ == phone_chars(chars@.take(i as int)),
        decreases chars@.len() - i,
    {
        let c = chars[i];
        assert(chars@.take(i + 1).drop_last() == chars@.take(i as int));
        if ('0' <= c && c <= '9') || c == '+' {
            push_char(&mut out, c);
        }
        i += 1;
    }
    assert(chars@.take(chars@.len() as int) == chars@);
    out
}

} // verus!
