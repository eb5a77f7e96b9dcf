use anonymize::{
    normalize, normalize_with_limit, validate_dni, validate_iban, validate_luhn, AnonymizeError,
    Anonymizer, CandidateMatch, Category, Confidence, ConflictResolver, CreditCardDetector,
    Detector, DniDetector, EmailDetector, IbanDetector, NormalizationType, PhoneDetector,
    ReplacementEngine, Span, SpanishIdDetector, ValidationResult, WorkOrderDetector,
};

fn candidate(start: usize, end: usize, id: &str, category: Category, priority: u32, raw: &str) -> CandidateMatch {
    CandidateMatch {
        span: Span { start, end },
        detector_id: id.to_string(),
        category,
        priority,
        confidence: Confidence::PatternOnly,
        raw_value: raw.to_string(),
        normalized_value: None,
    }
}

#[test]
fn luhn_accepts_published_numbers() {
    assert!(validate_luhn("4539 1488 0343 6467"));
    assert!(validate_luhn("4111111111111111"));
    assert!(validate_luhn("79927398713"));
    assert!(validate_luhn("0"));
}

#[test]
fn luhn_rejects_single_digit_changes() {
    let valid = "79927398713";
    for (i, c) in valid.char_indices() {
        for d in '0'..='9' {
            if d != c {
                let mut changed = valid.to_string();
                changed.replace_range(i..i + 1, &d.to_string());
                assert!(!validate_luhn(&changed), "{}", changed);
            }
        }
    }
}

#[test]
fn luhn_rejects_no_digits() {
    assert!(!validate_luhn(""));
    assert!(!validate_luhn("abc - "));
    assert!(!validate_luhn("4539 1488 0343 6468"));
}

#[test]
fn iban_accepts_published_numbers() {
    assert!(validate_iban("GB82 WEST 1234 5698 7654 32"));
    assert!(validate_iban("DE89 3704 0044 0532 0130 00"));
    assert!(validate_iban("ES91 2100 0418 4502 0005 1332"));
    assert!(validate_iban("FR14 2004 1010 0505 0001 3M02 606"));
}

#[test]
fn iban_rejects_single_digit_changes() {
    let valid = "GB82WEST12345698765432";
    for (i, c) in valid.char_indices() {
        if !c.is_ascii_digit() {
            continue;
        }
        for d in '0'..='9' {
            if d != c {
                let mut changed = valid.to_string();
                changed.replace_range(i..i + 1, &d.to_string());
                assert!(!validate_iban(&changed), "{}", changed);
            }
        }
    }
}

#[test]
fn iban_rejects_short_input() {
    assert!(!validate_iban("GB82"));
    assert!(!validate_iban(""));
}

#[test]
fn spanish_letters_are_checked() {
    assert!(validate_dni("12345678Z"));
    assert!(validate_dni("00000000T"));
    assert!(validate_dni("12345678z"));
    assert!(validate_dni("X0000000T"));
    assert!(validate_dni("y0000000z"));
    assert!(!validate_dni("12345678A"));
    assert!(!validate_dni("1234567Z"));
    assert!(!validate_dni("A1234567Z"));
    assert!(!validate_dni("1234567aZ"));
}

#[test]
fn spanish_letters_reject_single_digit_changes() {
    let valid = "12345678Z";
    for i in 0..8 {
        let c = valid.as_bytes()[i] as char;
        for d in '0'..='9' {
            if d != c {
                let mut changed = valid.to_string();
                changed.replace_range(i..i + 1, &d.to_string());
                assert!(!validate_dni(&changed), "{}", changed);
            }
        }
    }
}

#[test]
fn normalize_collapses_and_trims() {
    let n = normalize("  a \t b\n\nc  ").unwrap();
    assert_eq!(n.content, "a b c");
    assert_eq!(n.original_len, 12);
    assert_eq!(
        n.transformations_applied,
        vec![NormalizationType::UnicodeNfc, NormalizationType::WhitespaceCollapse, NormalizationType::Trim]
    );
}

#[test]
fn normalize_composes_nfc() {
    let n = normalize("Jose\u{301}").unwrap();
    assert_eq!(n.content, "Jos\u{e9}");
}

#[test]
fn normalize_rejects_large_input() {
    match normalize_with_limit("abcdef", 3) {
        Err(AnonymizeError::InputTooLarge { size, max }) => {
            assert_eq!(size, 6);
            assert_eq!(max, 3);
        },
        _ => panic!("expected InputTooLarge"),
    }
    assert!(normalize_with_limit("abc", 3).is_ok());
}

#[test]
fn empty_input_gives_empty_output() {
    let out = anonymize::create_anonymizer().anonymize("").unwrap();
    assert_eq!(out.text, "");
    assert_eq!(out.report.replacements.len(), 0);
    assert_eq!(out.report.statistics.conflicts_resolved, 0);
}

#[test]
fn resolver_prefers_longest_then_priority_then_id() {
    let cands = vec![
        candidate(0, 5, "b", Category::Phone, 50, "01234"),
        candidate(0, 9, "a", Category::Phone, 50, "012345678"),
        candidate(0, 9, "c", Category::Iban, 90, "012345678"),
        candidate(3, 12, "d", Category::Email, 10, "345678901"),
        candidate(9, 12, "e", Category::Email, 10, "9ab"),
    ];
    let kept = ConflictResolver::resolve(cands);
    let ids: Vec<&str> = kept.iter().map(|c| c.detector_id.as_str()).collect();
    assert_eq!(ids, vec!["c", "e"]);
}

#[test]
fn resolver_breaks_full_ties_by_identifier() {
    let cands = vec![
        candidate(2, 4, "zeta", Category::Phone, 50, "xx"),
        candidate(2, 4, "alpha", Category::Phone, 50, "xx"),
    ];
    let kept = ConflictResolver::resolve(cands);
    assert_eq!(kept.len(), 1);
    assert_eq!(kept[0].detector_id, "alpha");
}

#[test]
fn resolver_keeps_adjacent_spans() {
    let cands = vec![
        candidate(4, 8, "a", Category::Phone, 50, "4567"),
        candidate(0, 4, "a", Category::Phone, 50, "0123"),
    ];
    let kept = ConflictResolver::resolve(cands);
    let starts: Vec<usize> = kept.iter().map(|c| c.span.start).collect();
    assert_eq!(starts, vec![0, 4]);
}

#[test]
fn replace_numbers_per_category_left_to_right() {
    let text = "ab cd ef gh";
    let matches = vec![
        candidate(9, 11, "x", Category::Email, 1, "gh"),
        candidate(0, 2, "x", Category::Email, 1, "ab"),
        candidate(3, 5, "y", Category::Phone, 1, "cd"),
    ];
    let r = ReplacementEngine::replace(text, matches);
    assert_eq!(r.anonymized_text, "[EMAIL_1] [PHONE_1] ef [EMAIL_2]");
    assert_eq!(r.original_length, 11);
    assert_eq!(r.anonymized_length, r.anonymized_text.len());
    let ph: Vec<&str> = r.replacements.iter().map(|x| x.placeholder.as_str()).collect();
    assert_eq!(ph, vec!["[EMAIL_1]", "[PHONE_1]", "[EMAIL_2]"]);
    assert_eq!(r.replacements[0].original, "ab");
}

#[test]
fn replace_is_byte_exact_with_multibyte_text() {
    let text = "é x ñ";
    let matches = vec![candidate(3, 4, "x", Category::Custom("secret".to_string()), 1, "x")];
    let r = ReplacementEngine::replace(text, matches);
    assert_eq!(r.anonymized_text, "é [SECRET_1] ñ");
}

#[test]
fn custom_categories_upper_case_their_name() {
    assert_eq!(Category::Custom("client_ref".to_string()).placeholder_stem(), "CLIENT_REF");
    assert_eq!(Category::NationalId.placeholder_stem(), "NATIONAL_ID");
    assert_eq!(Category::Custom("X".to_string()).report_name(), "Custom(\"X\")");
    assert_eq!(Category::CreditCard.report_name(), "CreditCard");
}

#[test]
fn detectors_describe_themselves() {
    let d = DniDetector::new();
    assert_eq!(d.id(), "dni");
    assert_eq!(d.priority(), 100);
    assert_eq!(d.category(), Category::NationalId);
    assert_eq!(d.validate("12345678Z"), ValidationResult::Valid);
    assert_eq!(d.validate("12345678A"), ValidationResult::Invalid);
    assert_eq!(EmailDetector::new().validate("a@b.co"), ValidationResult::NotApplicable);
    assert_eq!(CreditCardDetector::new().priority(), 90);
    assert_eq!(SpanishIdDetector::new().id(), "spanish_id");
}

#[test]
fn detectors_normalize_raw_values() {
    let phones = PhoneDetector::new().detect("call +34 600-111-222 now");
    assert!(phones.iter().any(|c| c.normalized_value.as_deref() == Some("+34600111222")));
    let ibans = IbanDetector::new().detect("IBAN GB82 WEST 1234 5698 7654 32");
    assert_eq!(ibans.len(), 1);
    assert_eq!(ibans[0].normalized_value.as_deref(), Some("GB82WEST12345698765432"));
    assert_eq!(ibans[0].confidence, Confidence::Verified);
    let cards = CreditCardDetector::new().detect("4539-1488-0343-6467");
    assert_eq!(cards[0].normalized_value.as_deref(), Some("4539148803436467"));
    let ids = DniDetector::new().detect("X0000000T");
    assert_eq!(ids.len(), 1);
    assert_eq!(ids[0].normalized_value.as_deref(), Some("X0000000T"));
}

#[test]
fn verified_candidates_validate() {
    let d = DniDetector::new();
    for c in d.detect("12345678Z 00000000T 12345678A") {
        if c.confidence == Confidence::Verified {
            assert_eq!(d.validate(&c.raw_value), ValidationResult::Valid);
        }
    }
}

#[test]
fn engine_accepts_host_detectors_as_trait_objects() {
    let mut engine: Anonymizer<Box<dyn Detector>> = Anonymizer::new();
    engine.add_detector(Box::new(EmailDetector::new()));
    engine.add_detector(Box::new(WorkOrderDetector::new()));
    let out = engine.anonymize("WO-12345 by a@b.co").unwrap();
    assert_eq!(out.text, "[WORK_ORDER_1] by [EMAIL_1]");
}

#[test]
fn normalize_collapses_unicode_white_space() {
    let n = normalize("a\u{a0}\u{3000}b\u{2028}c\u{85}").unwrap();
    assert_eq!(n.content, "a b c");
}
