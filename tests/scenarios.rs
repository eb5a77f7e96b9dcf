use anonymize::{create_anonymizer, Category, Confidence};

fn run(text: &str) -> anonymize::AnonymizationOutput {
    create_anonymizer().anonymize(text).expect("input within the size limit")
}

#[test]
fn email_is_replaced() {
    let out = run("Contact: jane.doe@example.com");
    assert_eq!(out.text, "Contact: [EMAIL_1]");
    assert_eq!(out.report.replacements.len(), 1);
    let r = &out.report.replacements[0];
    assert_eq!(r.category, "Email");
    assert_eq!(r.confidence, "PatternOnly");
    assert_eq!(r.placeholder, "[EMAIL_1]");
    assert_eq!(r.original_value.as_deref(), Some("jane.doe@example.com"));
    assert_eq!((r.original_span.start, r.original_span.end), (9, 29));
}

#[test]
fn national_ids_with_valid_letters_are_replaced() {
    let out = run("DNI 12345678Z and 00000000T");
    assert_eq!(out.text, "DNI [NATIONAL_ID_1] and [NATIONAL_ID_2]");
    assert_eq!(out.report.replacements.len(), 2);
    assert!(out.report.replacements.iter().all(|r| r.confidence == "Verified"));
}

#[test]
fn national_id_with_wrong_letter_is_kept() {
    let out = run("DNI 12345678A");
    assert_eq!(out.text, "DNI 12345678A");
    assert_eq!(out.report.replacements.len(), 0);
    assert_eq!(out.report.statistics.total_matches, 0);
}

#[test]
fn iban_is_replaced_and_verified() {
    let out = run("IBAN GB82 WEST 1234 5698 7654 32");
    assert_eq!(out.text, "IBAN [IBAN_1]");
    assert_eq!(out.report.replacements.len(), 1);
    assert_eq!(out.report.replacements[0].confidence, "Verified");
    assert_eq!(out.report.replacements[0].category, "Iban");
}

#[test]
fn card_is_replaced_and_verified() {
    let out = run("Card 4539 1488 0343 6467 ok");
    assert_eq!(out.text, "Card [CREDIT_CARD_1] ok");
    assert_eq!(out.report.replacements.len(), 1);
    assert_eq!(out.report.replacements[0].confidence, "Verified");
}

#[test]
fn numbering_is_per_category() {
    let out = run("Mix a@b.co 600111222 a@b.co");
    assert_eq!(out.text, "Mix [EMAIL_1] [PHONE_1] [EMAIL_2]");
    let placeholders: Vec<&str> =
        out.report.replacements.iter().map(|r| r.placeholder.as_str()).collect();
    assert_eq!(placeholders, vec!["[EMAIL_1]", "[PHONE_1]", "[EMAIL_2]"]);
    let starts: Vec<usize> =
        out.report.replacements.iter().map(|r| r.original_span.start).collect();
    assert!(starts.windows(2).all(|w| w[0] < w[1]));
    let mut by_category = out.report.statistics.matches_by_category.clone();
    by_category.sort();
    assert_eq!(by_category, vec![("Email".to_string(), 2), ("Phone".to_string(), 1)]);
}

#[test]
fn running_twice_gives_the_same_text_and_report() {
    let input = "Mail a@b.co, DNI 12345678Z, card 4539 1488 0343 6467, WO-12345";
    let first = run(input);
    let second = run(input);
    assert_eq!(first.text, second.text);
    assert_eq!(first.hash.value, second.hash.value);
    assert_eq!(first.report.input_hash, second.report.input_hash);
    assert_eq!(first.report.replacements.len(), second.report.replacements.len());
    for (a, b) in first.report.replacements.iter().zip(second.report.replacements.iter()) {
        assert_eq!(a.placeholder, b.placeholder);
        assert_eq!(a.original_value, b.original_value);
        assert_eq!(a.original_span, b.original_span);
    }
    assert_eq!(
        first.report.statistics.conflicts_resolved,
        second.report.statistics.conflicts_resolved
    );
}

#[test]
fn placeholders_are_unique_within_a_run() {
    let out = run("a@b.co c@d.co 600111222 700111222 12345678Z WO-12345 WO-67890");
    let mut seen: Vec<&str> = Vec::new();
    for r in &out.report.replacements {
        assert!(!seen.contains(&r.placeholder.as_str()));
        seen.push(r.placeholder.as_str());
    }
    assert_eq!(seen.len(), 7);
}

#[test]
fn splicing_originals_back_restores_the_normalized_text() {
    let input = "Write   to a@b.co\tor call 600111222 today";
    let out = run(input);
    let mut positions: Vec<usize> = Vec::new();
    let mut delta: isize = 0;
    for r in &out.report.replacements {
        positions.push((r.original_span.start as isize + delta) as usize);
        delta += r.placeholder.len() as isize
            - (r.original_span.end - r.original_span.start) as isize;
    }
    let mut restored = out.text.clone();
    for (r, at) in out.report.replacements.iter().zip(positions.iter()).rev() {
        assert_eq!(&restored[*at..*at + r.placeholder.len()], r.placeholder.as_str());
        restored.replace_range(*at..*at + r.placeholder.len(), r.original_value.as_deref().unwrap());
    }
    assert_eq!(restored, "Write to a@b.co or call 600111222 today");
}

#[test]
fn conflicts_resolved_counts_dropped_candidates() {
    // The E.164 pattern also matches "+34" at the same start; the longer
    // Spanish form wins.
    let out = run("call +34 600111222");
    assert_eq!(out.text, "call [PHONE_1]");
    assert_eq!(out.report.statistics.total_matches, 1);
    assert_eq!(out.report.statistics.conflicts_resolved, 1);
}

#[test]
fn report_carries_constants_and_hashes() {
    let out = run("abc");
    assert_eq!(out.text, "abc");
    assert_eq!(out.report.version, "0.1.0");
    assert_eq!(out.report.config_hash, "default");
    assert_eq!(
        out.report.input_hash,
        "ba7816bf8f01cfea414140de5dae2223b00361a396177a9cb410ff61f20015ad"
    );
    assert_eq!(out.hash.algorithm, "SHA-256");
    assert_eq!(out.hash.value, out.report.input_hash);
    assert!(out.report.timestamp > 0);
}

#[test]
fn output_hash_is_of_the_anonymized_text() {
    let out = run("x a@b.co");
    assert_eq!(out.text, "x [EMAIL_1]");
    assert_ne!(out.hash.value, out.report.input_hash);
    assert_eq!(out.hash.value.len(), 64);
}

#[test]
fn input_whitespace_is_normalized_before_detection() {
    let out = run("  Contact:\n\n jane@example.com \t ");
    assert_eq!(out.text, "Contact: [EMAIL_1]");
}

#[test]
fn categories_compare_by_tag() {
    assert!(Category::Email.same_as(&Category::Email));
    assert!(!Category::Email.same_as(&Category::Phone));
    assert!(Category::Custom("x".to_string()).same_as(&Category::Custom("x".to_string())));
    assert_eq!(Confidence::Verified.report_name(), "Verified");
}
