//! From pattern hits to candidates: validation, confidence and the
//! normalized form of each raw value.

use vstd::prelude::*;
use vstd::utf8::{encode_utf8_decode_utf8};
use crate::checksum::{
    alphanumerics, iban_valid, luhn_valid, spanish_id_valid, validate_dni, validate_iban,
    validate_luhn,
};
use crate::detector::{
    CandidateMatch, CandidateView, Category, CategoryView, Confidence, Span, ValidationResult,
    fits_text, span_fits, text_slice, views,
};
use crate::detector::pattern::{find_hits, hits_fit, pattern_hits};
use crate::detector::credit_card::normalize_card;
use crate::detector::iban::normalize_iban;
use crate::detector::phone::normalize_phone;
use crate::detector::dni::normalize_dni;
use crate::text::{is_ascii_digit, slice_between, upper_of};

verus! {

broadcast use vstd::string::group_string_axioms;

/// The validator that a detector applies to its hits.
#[derive(Clone, Copy, Debug, PartialEq, Eq, Structural)]
pub enum Check {
    /// No validator: hits are pattern-only.
    Unchecked,
    Luhn,
    Iban,
    SpanishId,
}

/// The normalized form that a detector records for its hits.
#[derive(Clone, Copy, Debug, PartialEq, Eq, Structural)]
pub enum Form {
    /// No normalized form.
    Absent,
    /// Digits and `+` only.
    PhoneDigits,
    /// Digits only.
    CardDigits,
    /// Alphanumerics only, upper-cased.
    IbanUpper,
    /// Upper-cased.
    Upper,
}

/// What a detector stamps on each of its candidates.
pub struct Rule {
    pub id: Seq<char>,
    pub category: CategoryView,
    pub priority: u32,
    pub check: Check,
    pub form: Form,
}

pub open spec fn check_result(check: Check, raw: Seq<char>) -> ValidationResult {
    match check {
        Check::Unchecked => ValidationResult::NotApplicable,
        Check::Luhn => if luhn_valid(raw) {
            ValidationResult::Valid
        } else {
            ValidationResult::Invalid
        },
        Check::Iban => if iban_valid(raw) {
            ValidationResult::Valid
        } else {
            ValidationResult::Invalid
        },
        Check::SpanishId => if spanish_id_valid(raw) {
            ValidationResult::Valid
        } else {
            ValidationResult::Invalid
        },
    }
}

/// The ASCII digits and `+` signs of `s`, in order.
pub open spec fn phone_chars(s: Seq<char>) -> Seq<char>
    decreases s.len(),
{
    if s.len() == 0 {
        seq![]
    } else if is_ascii_digit(s.last()) || s.last() == '+' {
        phone_chars(s.drop_last()).push(s.last())
    } else {
        phone_chars(s.drop_last())
    }
}

/// The ASCII digits of `s`, in order.
pub open spec fn digit_chars(s: Seq<char>) -> Seq<char>
    decreases s.len(),
{
    if s.len() == 0 {
        seq![]
    } else if is_ascii_digit(s.last()) {
        digit_chars(s.drop_last()).push(s.last())
    } else {
        digit_chars(s.drop_last())
    }
}

pub open spec fn normal_form_of(form: Form, raw: Seq<char>) -> Option<Seq<char>> {
    match form {
        Form::Absent => None,
        Form::PhoneDigits => Some(phone_chars(raw)),
        Form::CardDigits => Some(digit_chars(raw)),
        Form::IbanUpper => Some(upper_of(alphanumerics(raw))),
        Form::Upper => Some(upper_of(raw)),
    }
}

/// The candidate for one hit of a rule.
pub open spec fn hit_candidate(text: Seq<char>, hit: (usize, usize), rule: Rule) -> CandidateView {
    let raw = text_slice(text, hit.0 as int, hit.1 as int);
    CandidateView {
        span: Span { start: hit.0, end: hit.1 },
        detector_id: rule.id,
        category: rule.category,
        priority: rule.priority,
        confidence: if check_result(rule.check, raw) == ValidationResult::Valid {
            Confidence::Verified
        } else {
            Confidence::PatternOnly
        },
        raw_value: raw,
        normalized_value: normal_form_of(rule.form, raw),
    }
}

/// The candidates of the hits in order, without those the validator rejects.
pub open spec fn hit_candidates(text: Seq<char>, hits: Seq<(usize, usize)>, rule: Rule) -> Seq<
    CandidateView,
>
    decreases hits.len(),
{
    if hits.len() == 0 {
        seq![]
    } else {
        let prev = hit_candidates(text, hits.drop_last(), rule);
        let c = hit_candidate(text, hits.last(), rule);
        if check_result(rule.check, c.raw_value) == ValidationResult::Invalid {
            prev
        } else {
            prev.push(c)
        }
    }
}

/// Runs a validator.
pub fn run_check(check: Check, raw: &str) -> (r: ValidationResult)
    ensures
        r == check_result(check, raw@),
{
    match check {
        Check::Unchecked => ValidationResult::NotApplicable,
        Check::Luhn => if validate_luhn(raw) {
            ValidationResult::Valid
        } else {
            ValidationResult::Invalid
        },
        Check::Iban => if validate_iban(raw) {
            ValidationResult::Valid
        } else {
            ValidationResult::Invalid
        },
        Check::SpanishId => if validate_dni(raw) {
            ValidationResult::Valid
        } else {
            ValidationResult::Invalid
        },
    }
}

fn normal_form(form: Form, raw: &str) -> (r: Option<String>)
    ensures
        match r {
            Some(s) => normal_form_of(form, raw@) == Some(s@),
            None => normal_form_of(form, raw@) is None,
        },
{
    match form {
        Form::Absent => None,
        Form::PhoneDigits => Some(normalize_phone(raw)),
        Form::CardDigits => Some(normalize_card(raw)),
        Form::IbanUpper => Some(normalize_iban(raw)),
        Form::Upper => Some(normalize_dni(raw)),
    }
}

/// Appends the candidates of `pattern`'s hits in `text` under a rule.
pub fn scan(
    text: &str,
    pattern: &str,
    id: &str,
    category: &Category,
    priority: u32,
    check: Check,
    form: Form,
    out: &mut Vec<CandidateMatch>,
)
    requires
        forall|i: int| 0 <= i < old(out)@.len() ==> fits_text(#[trigger] old(out)@[i]@, text@),
        forall|i: int|
            0 <= i < old(out)@.len() && (#[trigger] old(out)@[i]).confidence == Confidence::Verified
                ==> check_result(check, old(out)@[i].raw_value@) == ValidationResult::Valid,
    ensures
        views(final(out)@) == views(old(out)@) + hit_candidates(
            text@,
            pattern_hits(pattern@, text@),
            Rule { id: id@, category: category@, priority, check, form },
        ),
        forall|i: int| 0 <= i < final(out)@.len() ==> fits_text(#[trigger] final(out)@[i]@, text@),
        forall|i: int|
            0 <= i < final(out)@.len() && (#[trigger] final(out)@[i]).confidence
                == Confidence::Verified ==> check_result(check, final(out)@[i].raw_value@)
                == ValidationResult::Valid,
{
    let hits = find_hits(pattern, text);
    let ghost rule = Rule { id: id@, category: category@, priority, check, form };
    let ghost start = views(out@);
    let ghost n0 = out@.len();
    let mut k: usize = 0;
    while k < hits.len()
        invariant
            hits@ == pattern_hits(pattern@, text@),
            hits_fit(hits@, text@),
            k <= hits@.len(),
            n0 <= out@.len(),
            rule == (Rule { id: id@, category: category@, priority, check, form }),
            views(out@) == start + hit_candidates(text@, hits@.take(k as int), rule),
            forall|i: int| 0 <= i < out@.len() ==> fits_text(#[trigger] out@[i]@, text@),
            forall|i: int|
                0 <= i < out@.len() && (#[trigger] out@[i]).confidence == Confidence::Verified
                    ==> check_result(check, out@[i].raw_value@) == ValidationResult::Valid,
        decreases hits@.len() - k,
    {
        let (s, e) = hits[k];
        assert(hits@[k as int] == (s, e));
        let raw = slice_between(text, s, e);
        proof {
            encode_utf8_decode_utf8(raw@);
            assert(raw@ == text_slice(text@, s as int, e as int));
        }
        let verdict = run_check(check, raw);
        assert(hits@.take(k + 1).drop_last() =~= hits@.take(k as int));
        assert(hits@.take(k + 1).last() == (s, e));
        if verdict != ValidationResult::Invalid {
            let confidence = if verdict == ValidationResult::Valid {
                Confidence::Verified
            } else {
                Confidence::PatternOnly
            };
            let c = CandidateMatch {
                span: Span { start: s, end: e },
                detector_id: id.to_string(),
                category: category.duplicate(),
                priority,
                confidence,
                raw_value: raw.to_string(),
                normalized_value: normal_form(form, raw),
            };
            assert(c@ == hit_candidate(text@, (s, e), rule));
            proof {
                reveal(span_fits);
            }
            assert(fits_text(c@, text@));
            let ghost before = views(out@);
            out.push(c);
            assert(views(out@) =~= before.push(c@));
        }
        k += 1;
    }
    assert(hits@.take(hits@.len() as int) =~= hits@);
}

} // verus!
