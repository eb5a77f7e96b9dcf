//! Candidate matches and the detector capability.

use vstd::prelude::*;
use vstd::utf8::{decode_utf8, is_char_boundary};
use crate::text::bytes_of;

pub mod pattern;
pub mod scan;
pub mod builtin;
pub mod email;
pub mod phone;
pub mod dni;
pub mod spanish_id;
pub mod ssn;
pub mod iban;
pub mod credit_card;
pub mod project_code;
pub mod contract_number;
pub mod work_order;
pub mod purchase_order;
pub mod serial_number;
pub mod cost_center;

verus! {

/// Identifier of a detector: a stable string.
pub type DetectorId = String;

/// Half-open byte interval `[start, end)` into the normalized text.
#[derive(Clone, Copy, Debug, PartialEq, Eq, Structural)]
pub struct Span {
    pub start: usize,
    pub end: usize,
}

/// The semantic class of a match.
#[derive(Clone, Debug, PartialEq, Eq, Hash)]
pub enum Category {
    Email,
    Phone,
    Iban,
    NationalId,
    CreditCard,
    ProjectCode,
    ContractNumber,
    WorkOrder,
    PurchaseOrder,
    SerialNumber,
    CostCenter,
    CompanyName,
    ProjectName,
    PersonnelName,
    ClientName,
    Custom(String),
    DocumentNumber,
    RevisedBy,
    ApprovedBy,
    DesignedBy,
}

/// The value of a [`Category`], with a custom name as its characters.
pub enum CategoryView {
    Email,
    Phone,
    Iban,
    NationalId,
    CreditCard,
    ProjectCode,
    ContractNumber,
    WorkOrder,
    PurchaseOrder,
    SerialNumber,
    CostCenter,
    CompanyName,
    ProjectName,
    PersonnelName,
    ClientName,
    Custom(Seq<char>),
    DocumentNumber,
    RevisedBy,
    ApprovedBy,
    DesignedBy,
}

impl View for Category {
    type V = CategoryView;

    open spec fn view(&self) -> CategoryView {
        match self {
            Category::Email => CategoryView::Email,
            Category::Phone => CategoryView::Phone,
            Category::Iban => CategoryView::Iban,
            Category::NationalId => CategoryView::NationalId,
            Category::CreditCard => CategoryView::CreditCard,
            Category::ProjectCode => CategoryView::ProjectCode,
            Category::ContractNumber => CategoryView::ContractNumber,
            Category::WorkOrder => CategoryView::WorkOrder,
            Category::PurchaseOrder => CategoryView::PurchaseOrder,
            Category::SerialNumber => CategoryView::SerialNumber,
            Category::CostCenter => CategoryView::CostCenter,
            Category::CompanyName => CategoryView::CompanyName,
            Category::ProjectName => CategoryView::ProjectName,
            Category::PersonnelName => CategoryView::PersonnelName,
            Category::ClientName => CategoryView::ClientName,
            Category::Custom(s) => CategoryView::Custom(s@),
            Category::DocumentNumber => CategoryView::DocumentNumber,
            Category::RevisedBy => CategoryView::RevisedBy,
            Category::ApprovedBy => CategoryView::ApprovedBy,
            Category::DesignedBy => CategoryView::DesignedBy,
        }
    }
}

impl Category {
    /// A copy of this category.
    pub fn duplicate(&self) -> (r: Category)
        ensures
            r@ == self@,
    {
        match self {
            Category::Email => Category::Email,
            Category::Phone => Category::Phone,
            Category::Iban => Category::Iban,
            Category::NationalId => Category::NationalId,
            Category::CreditCard => Category::CreditCard,
            Category::ProjectCode => Category::ProjectCode,
            Category::ContractNumber => Category::ContractNumber,
            Category::WorkOrder => Category::WorkOrder,
            Category::PurchaseOrder => Category::PurchaseOrder,
            Category::SerialNumber => Category::SerialNumber,
            Category::CostCenter => Category::CostCenter,
            Category::CompanyName => Category::CompanyName,
            Category::ProjectName => Category::ProjectName,
            Category::PersonnelName => Category::PersonnelName,
            Category::ClientName => Category::ClientName,
            Category::Custom(s) => Category::Custom(s.clone()),
            Category::DocumentNumber => Category::DocumentNumber,
            Category::RevisedBy => Category::RevisedBy,
            Category::ApprovedBy => Category::ApprovedBy,
            Category::DesignedBy => Category::DesignedBy,
        }
    }

    /// Whether two categories are the same tag (custom names compared by
    /// their characters).
    pub fn same_as(&self, other: &Category) -> (r: bool)
        ensures
            r == (self@ == other@),
    {
        match (self, other) {
            (Category::Custom(a), Category::Custom(b)) => a.eq(b),
            (Category::Email, Category::Email) => true,
            (Category::Phone, Category::Phone) => true,
            (Category::Iban, Category::Iban) => true,
            (Category::NationalId, Category::NationalId) => true,
            (Category::CreditCard, Category::CreditCard) => true,
            (Category::ProjectCode, Category::ProjectCode) => true,
            (Category::ContractNumber, Category::ContractNumber) => true,
            (Category::WorkOrder, Category::WorkOrder) => true,
            (Category::PurchaseOrder, Category::PurchaseOrder) => true,
            (Category::SerialNumber, Category::SerialNumber) => true,
            (Category::CostCenter, Category::CostCenter) => true,
            (Category::CompanyName, Category::CompanyName) => true,
            (Category::ProjectName, Category::ProjectName) => true,
            (Category::PersonnelName, Category::PersonnelName) => true,
            (Category::ClientName, Category::ClientName) => true,
            (Category::DocumentNumber, Category::DocumentNumber) => true,
            (Category::RevisedBy, Category::RevisedBy) => true,
            (Category::ApprovedBy, Category::ApprovedBy) => true,
            (Category::DesignedBy, Category::DesignedBy) => true,
            _ => false,
        }
    }
}

/// Whether a validator corroborated the pattern hit.
#[derive(Clone, Copy, Debug, PartialEq, Eq, Structural)]
pub enum Confidence {
    /// The pattern matched and a checksum or structural validation passed.
    Verified,
    /// The pattern matched; no validation applies.
    PatternOnly,
}

/// Outcome of a detector's validator.
#[derive(Clone, Copy, Debug, PartialEq, Eq, Structural)]
pub enum ValidationResult {
    Valid,
    Invalid,
    NotApplicable,
}

/// A detector's tentative hit, before conflicts are resolved.
#[derive(Clone, Debug)]
pub struct CandidateMatch {
    pub span: Span,
    pub detector_id: DetectorId,
    pub category: Category,
    pub priority: u32,
    pub confidence: Confidence,
    pub raw_value: String,
    pub normalized_value: Option<String>,
}

/// The value of a [`CandidateMatch`], with strings as their characters.
pub struct CandidateView {
    pub span: Span,
    pub detector_id: Seq<char>,
    pub category: CategoryView,
    pub priority: u32,
    pub confidence: Confidence,
    pub raw_value: Seq<char>,
    pub normalized_value: Option<Seq<char>>,
}

pub open spec fn option_view(o: Option<String>) -> Option<Seq<char>> {
    match o {
        Some(s) => Some(s@),
        None => None,
    }
}

impl View for CandidateMatch {
    type V = CandidateView;

    open spec fn view(&self) -> CandidateView {
        CandidateView {
            span: self.span,
            detector_id: self.detector_id@,
            category: self.category@,
            priority: self.priority,
            confidence: self.confidence,
            raw_value: self.raw_value@,
            normalized_value: option_view(self.normalized_value),
        }
    }
}

/// The views of a sequence of candidates.
pub open spec fn views(s: Seq<CandidateMatch>) -> Seq<CandidateView> {
    s.map_values(|c: CandidateMatch| c@)
}

/// The `k`-th span ends no later than the next one starts.
pub open spec fn spans_follow(s: Seq<CandidateView>, k: int) -> bool {
    s[k].span.end <= s[k + 1].span.start
}

/// The characters of `text` between byte offsets `start` and `end`.
pub open spec fn text_slice(text: Seq<char>, start: int, end: int) -> Seq<char> {
    decode_utf8(bytes_of(text).subrange(start, end))
}

/// `span` lies in `text` and both its ends fall on character boundaries.
#[verifier::opaque]
pub open spec fn span_fits(span: Span, text: Seq<char>) -> bool {
    &&& span.start <= span.end <= bytes_of(text).len()
    &&& is_char_boundary(bytes_of(text), span.start as int)
    &&& is_char_boundary(bytes_of(text), span.end as int)
}

/// The candidate's span lies in `text` and its raw value is what the span covers.
pub open spec fn fits_text(c: CandidateView, text: Seq<char>) -> bool {
    &&& span_fits(c.span, text)
    &&& bytes_of(c.raw_value) == bytes_of(text).subrange(c.span.start as int, c.span.end as int)
}

/// A pattern-plus-validator unit that proposes candidate matches.
///
/// `detect` must be a function of the text, emit spans that lie in the text,
/// and mark a candidate `Verified` only when `validate` accepts its raw value.
pub trait Detector {
    spec fn spec_id(&self) -> Seq<char>;

    spec fn spec_category(&self) -> CategoryView;

    spec fn spec_priority(&self) -> u32;

    spec fn spec_validate(&self, candidate: Seq<char>) -> ValidationResult;

    spec fn spec_detect(&self, text: Seq<char>) -> Seq<CandidateView>;

    /// Stable identifier of this detector.
    fn id(&self) -> (r: DetectorId)
        ensures
            r@ == self.spec_id(),
    ;

    /// Category of what this detector finds.
    fn category(&self) -> (r: Category)
        ensures
            r@ == self.spec_category(),
    ;

    /// All candidates in `text`.
    fn detect(&self, text: &str) -> (r: Vec<CandidateMatch>)
        ensures
            views(r@) == self.spec_detect(text@),
            forall|i: int| 0 <= i < r@.len() ==> fits_text(#[trigger] r@[i]@, text@),
            forall|i: int|
                0 <= i < r@.len() && (#[trigger] r@[i]).confidence == Confidence::Verified
                    ==> self.spec_validate(r@[i].raw_value@) == ValidationResult::Valid,
    ;

    /// Checksum or structural validation of a candidate's raw value.
    fn validate(&self, candidate: &str) -> (r: ValidationResult)
        ensures
            r == self.spec_validate(candidate@),
    ;

    /// Priority in conflict resolution; higher wins ties.
    fn priority(&self) -> (r: u32)
        ensures
            r == self.spec_priority(),
    ;
}

impl Detector for Box<dyn Detector> {
    open spec fn spec_id(&self) -> Seq<char> {
        (**self).spec_id()
    }

    open spec fn spec_category(&self) -> CategoryView {
        (**self).spec_category()
    }

    open spec fn spec_priority(&self) -> u32 {
        (**self).spec_priority()
    }

    open spec fn spec_validate(&self, candidate: Seq<char>) -> ValidationResult {
        (**self).spec_validate(candidate)
    }

    open spec fn spec_detect(&self, text: Seq<char>) -> Seq<CandidateView> {
        (**self).spec_detect(text)
    }

    fn id(&self) -> (r: DetectorId) {
        (**self).id()
    }

    fn category(&self) -> (r: Category) {
        (**self).category()
    }

    fn detect(&self, text: &str) -> (r: Vec<CandidateMatch>) {
        (**self).detect(text)
    }

    fn validate(&self, candidate: &str) -> (r: ValidationResult) {
        (**self).validate(candidate)
    }

    fn priority(&self) -> (r: u32) {
        (**self).priority()
    }
}

} // verus!
