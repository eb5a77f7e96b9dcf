use anonymize::document::{
    base64_encode, create_page_content, docx_output_filename, escape_pdf_text,
    pdf_output_filename, DocumentType,
};

#[test]
fn base64_pads_like_the_standard() {
    assert_eq!(base64_encode(b""), "");
    assert_eq!(base64_encode(b"M"), "TQ==");
    assert_eq!(base64_encode(b"Ma"), "TWE=");
    assert_eq!(base64_encode(b"Man"), "TWFu");
    assert_eq!(base64_encode(b"hello world"), "aGVsbG8gd29ybGQ=");
    assert_eq!(base64_encode(&[0xff, 0xfe, 0xfd, 0x00]), "//79AA==");
}

#[test]
fn pdf_text_is_escaped() {
    assert_eq!(escape_pdf_text("a(b)\\c\r"), "a\\(b\\)\\\\c");
    assert_eq!(escape_pdf_text("plain"), "plain");
}

#[test]
fn page_content_shows_each_line() {
    let lines = vec!["a(b)".to_string(), "x".to_string()];
    assert_eq!(
        create_page_content(&lines, 0),
        "BT\n/F1 10 Tf\n50 800 Td\n12 TL\n(a\\(b\\)) Tj T*\n(x) Tj T*\nET\n"
    );
}

#[test]
fn output_names_replace_the_extension() {
    assert_eq!(docx_output_filename("report.docx"), "report_anonymized.docx");
    assert_eq!(docx_output_filename("REPORT.DOCX"), "REPORT_anonymized.docx");
    assert_eq!(docx_output_filename("x.docx.docx"), "x_anonymized.docx");
    assert_eq!(docx_output_filename("notes"), "notes_anonymized.docx");
    assert_eq!(pdf_output_filename("scan.PDF"), "scan_anonymized.pdf");
}

#[test]
fn file_type_comes_from_the_extension_in_any_case() {
    assert_eq!(DocumentType::from_filename("Report.DOCX"), Some(DocumentType::Docx));
    assert_eq!(DocumentType::from_filename("a.docx"), Some(DocumentType::Docx));
    assert_eq!(DocumentType::from_filename("a.pdf"), None);
    assert_eq!(DocumentType::from_filename("docx"), None);
}
