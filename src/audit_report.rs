//! The audit report: what was redacted, where, and why.

use vstd::prelude::*;
use vstd::string::StringExecFns;
use sha2::{Digest, Sha256};
use crate::detector::{Category, CategoryView, Confidence, Span, option_view};
use crate::replacement_engine::{Replacement, ReplacementView};
use crate::text::bytes_of;

verus! {

broadcast use vstd::string::group_string_axioms;

/// The report of one run.
pub struct AuditReport {
    pub version: String,
    /// When the run happened: milliseconds since the Unix epoch, UTC.
    pub timestamp: i64,
    pub input_hash: String,
    pub config_hash: String,
    pub statistics: Statistics,
    pub replacements: Vec<ReplacementRecord>,
}

/// Counts of one run.
pub struct Statistics {
    pub total_matches: usize,
    /// Category name and number of replacements of that category, in order
    /// of first appearance.
    pub matches_by_category: Vec<(String, usize)>,
    pub conflicts_resolved: usize,
    pub processing_time_ms: u64,
}

/// One replacement as the report records it.
pub struct ReplacementRecord {
    pub placeholder: String,
    pub category: String,
    pub detector_id: String,
    pub confidence: String,
    pub original_span: Span,
    pub original_value: Option<String>,
}

/// The value of a [`ReplacementRecord`], with strings as their characters.
pub struct RecordView {
    pub placeholder: Seq<char>,
    pub category: Seq<char>,
    pub detector_id: Seq<char>,
    pub confidence: Seq<char>,
    pub original_span: Span,
    pub original_value: Option<Seq<char>>,
}

impl View for ReplacementRecord {
    type V = RecordView;

    open spec fn view(&self) -> RecordView {
        RecordView {
            placeholder: self.placeholder@,
            category: self.category@,
            detector_id: self.detector_id@,
            confidence: self.confidence@,
            original_span: self.original_span,
            original_value: option_view(self.original_value),
        }
    }
}

/// A digest of some content.
pub struct ContentHash {
    pub algorithm: String,
    pub value: String,
}

/// The lower-case hexadecimal SHA-256 digest of some bytes.
pub uninterp spec fn sha256_hex(b: Seq<u8>) -> Seq<char>;

/// Relies on `sha2::Sha256::digest` and the lower-hex rendering of the digest.
#[verifier::external_body]
pub(crate) fn sha256_hex_of(text: &str) -> (r: String)
    ensures
        r@ == sha256_hex(bytes_of(text@)),
{
    format!("{:x}", Sha256::digest(text.as_bytes()))
}

/// A string as Rust's `Debug` writes it: quoted, with escapes.
pub uninterp spec fn debug_text(s: Seq<char>) -> Seq<char>;

/// Relies on `<str as Debug>::fmt`, a function of the characters alone.
#[verifier::external_body]
fn debug_quoted(s: &str) -> (r: String)
    ensures
        r@ == debug_text(s@),
{
    format!("{:?}", s)
}

/// A category's name in the report: its tag, or `Custom("name")`.
pub open spec fn category_name(c: CategoryView) -> Seq<char> {
    match c {
        CategoryView::Email => "Email"@,
        CategoryView::Phone => "Phone"@,
        CategoryView::Iban => "Iban"@,
        CategoryView::NationalId => "NationalId"@,
        CategoryView::CreditCard => "CreditCard"@,
        CategoryView::ProjectCode => "ProjectCode"@,
        CategoryView::ContractNumber => "ContractNumber"@,
        CategoryView::WorkOrder => "WorkOrder"@,
        CategoryView::PurchaseOrder => "PurchaseOrder"@,
        CategoryView::SerialNumber => "SerialNumber"@,
        CategoryView::CostCenter => "CostCenter"@,
        CategoryView::CompanyName => "CompanyName"@,
        CategoryView::ProjectName => "ProjectName"@,
        CategoryView::PersonnelName => "PersonnelName"@,
        CategoryView::ClientName => "ClientName"@,
        CategoryView::DocumentNumber => "DocumentNumber"@,
        CategoryView::RevisedBy => "RevisedBy"@,
        CategoryView::ApprovedBy => "ApprovedBy"@,
        CategoryView::DesignedBy => "DesignedBy"@,
        CategoryView::Custom(s) => "Custom("@ + debug_text(s) + ")"@,
    }
}

pub open spec fn confidence_name(c: Confidence) -> Seq<char> {
    match c {
        Confidence::Verified => "Verified"@,
        Confidence::PatternOnly => "PatternOnly"@,
    }
}

/// The report's record of a replacement.
pub open spec fn record_view_of(r: ReplacementView) -> RecordView {
    RecordView {
        placeholder: r.placeholder,
        category: category_name(r.category),
        detector_id: r.detector_id,
        confidence: confidence_name(r.confidence),
        original_span: r.span,
        original_value: Some(r.original),
    }
}

impl Category {
    /// The category's name in the report.
    pub fn report_name(&self) -> (r: String)
        ensures
            r@ == category_name(self@),
    {
        match self {
            Category::Email => "Email".to_string(),
            Category::Phone => "Phone".to_string(),
            Category::Iban => "Iban".to_string(),
            Category::NationalId => "NationalId".to_string(),
            Category::CreditCard => "CreditCard".to_string(),
            Category::ProjectCode => "ProjectCode".to_string(),
            Category::ContractNumber => "ContractNumber".to_string(),
            Category::WorkOrder => "WorkOrder".to_string(),
            Category::PurchaseOrder => "PurchaseOrder".to_string(),
            Category::SerialNumber => "SerialNumber".to_string(),
            Category::CostCenter => "CostCenter".to_string(),
            Category::CompanyName => "CompanyName".to_string(),
            Category::ProjectName => "ProjectName".to_string(),
            Category::PersonnelName => "PersonnelName".to_string(),
            Category::ClientName => "ClientName".to_string(),
            Category::DocumentNumber => "DocumentNumber".to_string(),
            Category::RevisedBy => "RevisedBy".to_string(),
            Category::ApprovedBy => "ApprovedBy".to_string(),
            Category::DesignedBy => "DesignedBy".to_string(),
            Category::Custom(s) => {
                let mut r = "Custom(".to_string();
                let q = debug_quoted(s.as_str());
                r.append(q.as_str());
                r.append(")");
                r
            },
        }
    }
}

impl Confidence {
    /// The confidence's name in the report.
    pub fn report_name(&self) -> (r: String)
        ensures
            r@ == confidence_name(*self),
    {
        match self {
            Confidence::Verified => "Verified".to_string(),
            Confidence::PatternOnly => "PatternOnly".to_string(),
        }
    }
}

/// The report's record of a replacement.
pub fn record_of(r: &Replacement) -> (rec: ReplacementRecord)
    ensures
        rec@ == record_view_of(r@),
{
    ReplacementRecord {
        placeholder: r.placeholder.clone(),
        category: r.category.report_name(),
        detector_id: r.detector_id.clone(),
        confidence: r.confidence.report_name(),
        original_span: r.span,
        original_value: Some(r.original.clone()),
    }
}

} // verus!
