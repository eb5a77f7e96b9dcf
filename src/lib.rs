//! Deterministic, rule-based redaction of sensitive substrings, with an
//! audit trail of every redaction.
//!
//! The pipeline normalizes the input, runs every detector over it, resolves
//! overlapping candidates, replaces the survivors by numbered placeholders
//! and reports what was done.

pub mod text;
pub mod error;
pub mod normalizer;
pub mod checksum;
pub mod detector;
pub mod ordering;
pub mod conflict_resolver;
pub mod replacement_engine;
pub mod audit_report;
pub mod engine;
pub mod document;
pub mod web;

pub use audit_report::{AuditReport, ContentHash, ReplacementRecord, Statistics};
pub use checksum::{validate_dni, validate_iban, validate_luhn};
pub use conflict_resolver::ConflictResolver;
pub use detector::builtin::BuiltinDetector;
pub use detector::contract_number::ContractNumberDetector;
pub use detector::cost_center::CostCenterDetector;
pub use detector::credit_card::CreditCardDetector;
pub use detector::dni::DniDetector;
pub use detector::email::EmailDetector;
pub use detector::iban::IbanDetector;
pub use detector::phone::PhoneDetector;
pub use detector::project_code::ProjectCodeDetector;
pub use detector::purchase_order::PurchaseOrderDetector;
pub use detector::serial_number::SerialNumberDetector;
pub use detector::spanish_id::SpanishIdDetector;
pub use detector::ssn::SsnDetector;
pub use detector::work_order::WorkOrderDetector;
pub use detector::{
    CandidateMatch, Category, Confidence, Detector, DetectorId, Span, ValidationResult,
};
pub use engine::{create_anonymizer, AnonymizationOutput, Anonymizer};
pub use error::AnonymizeError;
pub use normalizer::{normalize, normalize_with_limit, NormalizationType, NormalizedText};
pub use replacement_engine::{Replacement, ReplacementEngine, ReplacementResult};
