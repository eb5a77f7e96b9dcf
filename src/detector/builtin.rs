//! The built-in detectors as one type.

use vstd::prelude::*;
use crate::detector::{
    CandidateMatch, CandidateView, Category, CategoryView, DetectorId, Detector, ValidationResult,
};
use crate::detector::email::EmailDetector;
use crate::detector::phone::PhoneDetector;
use crate::detector::dni::DniDetector;
use crate::detector::spanish_id::SpanishIdDetector;
use crate::detector::ssn::SsnDetector;
use crate::detector::iban::IbanDetector;
use crate::detector::credit_card::CreditCardDetector;
use crate::detector::project_code::ProjectCodeDetector;
use crate::detector::contract_number::ContractNumberDetector;
use crate::detector::work_order::WorkOrderDetector;
use crate::detector::purchase_order::PurchaseOrderDetector;
use crate::detector::serial_number::SerialNumberDetector;
use crate::detector::cost_center::CostCenterDetector;

verus! {

/// One of the built-in detectors.
pub enum BuiltinDetector {
    Email(EmailDetector),
    Phone(PhoneDetector),
    Dni(DniDetector),
    SpanishId(SpanishIdDetector),
    Ssn(SsnDetector),
    Iban(IbanDetector),
    CreditCard(CreditCardDetector),
    ProjectCode(ProjectCodeDetector),
    ContractNumber(ContractNumberDetector),
    WorkOrder(WorkOrderDetector),
    PurchaseOrder(PurchaseOrderDetector),
    SerialNumber(SerialNumberDetector),
    CostCenter(CostCenterDetector),
}

impl Detector for BuiltinDetector {
    open spec fn spec_id(&self) -> Seq<char> {
        match self {
            BuiltinDetector::Email(d) => d.spec_id(),
            BuiltinDetector::Phone(d) => d.spec_id(),
            BuiltinDetector::Dni(d) => d.spec_id(),
            BuiltinDetector::SpanishId(d) => d.spec_id(),
            BuiltinDetector::Ssn(d) => d.spec_id(),
            BuiltinDetector::Iban(d) => d.spec_id(),
            BuiltinDetector::CreditCard(d) => d.spec_id(),
            BuiltinDetector::ProjectCode(d) => d.spec_id(),
            BuiltinDetector::ContractNumber(d) => d.spec_id(),
            BuiltinDetector::WorkOrder(d) => d.spec_id(),
            BuiltinDetector::PurchaseOrder(d) => d.spec_id(),
            BuiltinDetector::SerialNumber(d) => d.spec_id(),
            BuiltinDetector::CostCenter(d) => d.spec_id(),
        }
    }

    open spec fn spec_category(&self) -> CategoryView {
        match self {
            BuiltinDetector::Email(d) => d.spec_category(),
            BuiltinDetector::Phone(d) => d.spec_category(),
            BuiltinDetector::Dni(d) => d.spec_category(),
            BuiltinDetector::SpanishId(d) => d.spec_category(),
            BuiltinDetector::Ssn(d) => d.spec_category(),
            BuiltinDetector::Iban(d) => d.spec_category(),
            BuiltinDetector::CreditCard(d) => d.spec_category(),
            BuiltinDetector::ProjectCode(d) => d.spec_category(),
            BuiltinDetector::ContractNumber(d) => d.spec_category(),
            BuiltinDetector::WorkOrder(d) => d.spec_category(),
            BuiltinDetector::PurchaseOrder(d) => d.spec_category(),
            BuiltinDetector::SerialNumber(d) => d.spec_category(),
            BuiltinDetector::CostCenter(d) => d.spec_category(),
        }
    }

    open spec fn spec_priority(&self) -> u32 {
        match self {
            BuiltinDetector::Email(d) => d.spec_priority(),
            BuiltinDetector::Phone(d) => d.spec_priority(),
            BuiltinDetector::Dni(d) => d.spec_priority(),
            BuiltinDetector::SpanishId(d) => d.spec_priority(),
            BuiltinDetector::Ssn(d) => d.spec_priority(),
            BuiltinDetector::Iban(d) => d.spec_priority(),
            BuiltinDetector::CreditCard(d) => d.spec_priority(),
            BuiltinDetector::ProjectCode(d) => d.spec_priority(),
            BuiltinDetector::ContractNumber(d) => d.spec_priority(),
            BuiltinDetector::WorkOrder(d) => d.spec_priority(),
            BuiltinDetector::PurchaseOrder(d) => d.spec_priority(),
            BuiltinDetector::SerialNumber(d) => d.spec_priority(),
            BuiltinDetector::CostCenter(d) => d.spec_priority(),
        }
    }

    open spec fn spec_validate(&self, candidate: Seq<char>) -> ValidationResult {
        match self {
            BuiltinDetector::Email(d) => d.spec_validate(candidate),
            BuiltinDetector::Phone(d) => d.spec_validate(candidate),
            BuiltinDetector::Dni(d) => d.spec_validate(candidate),
            BuiltinDetector::SpanishId(d) => d.spec_validate(candidate),
            BuiltinDetector::Ssn(d) => d.spec_validate(candidate),
            BuiltinDetector::Iban(d) => d.spec_validate(candidate),
            BuiltinDetector::CreditCard(d) => d.spec_validate(candidate),
            BuiltinDetector::ProjectCode(d) => d.spec_validate(candidate),
            BuiltinDetector::ContractNumber(d) => d.spec_validate(candidate),
            BuiltinDetector::WorkOrder(d) => d.spec_validate(candidate),
            BuiltinDetector::PurchaseOrder(d) => d.spec_validate(candidate),
            BuiltinDetector::SerialNumber(d) => d.spec_validate(candidate),
            BuiltinDetector::CostCenter(d) => d.spec_validate(candidate),
        }
    }

    open spec fn spec_detect(&self, text: Seq<char>) -> Seq<CandidateView> {
        match self {
            BuiltinDetector::Email(d) => d.spec_detect(text),
            BuiltinDetector::Phone(d) => d.spec_detect(text),
            BuiltinDetector::Dni(d) => d.spec_detect(text),
            BuiltinDetector::SpanishId(d) => d.spec_detect(text),
            BuiltinDetector::Ssn(d) => d.spec_detect(text),
            BuiltinDetector::Iban(d) => d.spec_detect(text),
            BuiltinDetector::CreditCard(d) => d.spec_detect(text),
            BuiltinDetector::ProjectCode(d) => d.spec_detect(text),
            BuiltinDetector::ContractNumber(d) => d.spec_detect(text),
            BuiltinDetector::WorkOrder(d) => d.spec_detect(text),
            BuiltinDetector::PurchaseOrder(d) => d.spec_detect(text),
            BuiltinDetector::SerialNumber(d) => d.spec_detect(text),
            BuiltinDetector::CostCenter(d) => d.spec_detect(text),
        }
    }

    fn id(&self) -> (r: DetectorId) {
        match self {
            BuiltinDetector::Email(d) => d.id(),
            BuiltinDetector::Phone(d) => d.id(),
            BuiltinDetector::Dni(d) => d.id(),
            BuiltinDetector::SpanishId(d) => d.id(),
            BuiltinDetector::Ssn(d) => d.id(),
            BuiltinDetector::Iban(d) => d.id(),
            BuiltinDetector::CreditCard(d) => d.id(),
            BuiltinDetector::ProjectCode(d) => d.id(),
            BuiltinDetector::ContractNumber(d) => d.id(),
            BuiltinDetector::WorkOrder(d) => d.id(),
            BuiltinDetector::PurchaseOrder(d) => d.id(),
            BuiltinDetector::SerialNumber(d) => d.id(),
            BuiltinDetector::CostCenter(d) => d.id(),
        }
    }

    fn category(&self) -> (r: Category) {
        match self {
            BuiltinDetector::Email(d) => d.category(),
            BuiltinDetector::Phone(d) => d.category(),
            BuiltinDetector::Dni(d) => d.category(),
            BuiltinDetector::SpanishId(d) => d.category(),
            BuiltinDetector::Ssn(d) => d.category(),
            BuiltinDetector::Iban(d) => d.category(),
            BuiltinDetector::CreditCard(d) => d.category(),
            BuiltinDetector::ProjectCode(d) => d.category(),
            BuiltinDetector::ContractNumber(d) => d.category(),
            BuiltinDetector::WorkOrder(d) => d.category(),
            BuiltinDetector::PurchaseOrder(d) => d.category(),
            BuiltinDetector::SerialNumber(d) => d.category(),
            BuiltinDetector::CostCenter(d) => d.category(),
        }
    }

    fn detect(&self, text: &str) -> (r: Vec<CandidateMatch>) {
        match self {
            BuiltinDetector::Email(d) => d.detect(text),
            BuiltinDetector::Phone(d) => d.detect(text),
            BuiltinDetector::Dni(d) => d.detect(text),
            BuiltinDetector::SpanishId(d) => d.detect(text),
            BuiltinDetector::Ssn(d) => d.detect(text),
            BuiltinDetector::Iban(d) => d.detect(text),
            BuiltinDetector::CreditCard(d) => d.detect(text),
            BuiltinDetector::ProjectCode(d) => d.detect(text),
            BuiltinDetector::ContractNumber(d) => d.detect(text),
            BuiltinDetector::WorkOrder(d) => d.detect(text),
            BuiltinDetector::PurchaseOrder(d) => d.detect(text),
            BuiltinDetector::SerialNumber(d) => d.detect(text),
            BuiltinDetector::CostCenter(d) => d.detect(text),
        }
    }

    fn validate(&self, candidate: &str) -> (r: ValidationResult) {
        match self {
            BuiltinDetector::Email(d) => d.validate(candidate),
            BuiltinDetector::Phone(d) => d.validate(candidate),
            BuiltinDetector::Dni(d) => d.validate(candidate),
            BuiltinDetector::SpanishId(d) => d.validate(candidate),
            BuiltinDetector::Ssn(d) => d.validate(candidate),
            BuiltinDetector::Iban(d) => d.validate(candidate),
            BuiltinDetector::CreditCard(d) => d.validate(candidate),
            BuiltinDetector::ProjectCode(d) => d.validate(candidate),
            BuiltinDetector::ContractNumber(d) => d.validate(candidate),
            BuiltinDetector::WorkOrder(d) => d.validate(candidate),
            BuiltinDetector::PurchaseOrder(d) => d.validate(candidate),
            BuiltinDetector::SerialNumber(d) => d.validate(candidate),
            BuiltinDetector::CostCenter(d) => d.validate(candidate),
        }
    }

    fn priority(&self) -> (r: u32) {
        match self {
            BuiltinDetector::Email(d) => d.priority(),
            BuiltinDetector::Phone(d) => d.priority(),
            BuiltinDetector::Dni(d) => d.priority(),
            BuiltinDetector::SpanishId(d) => d.priority(),
            BuiltinDetector::Ssn(d) => d.priority(),
            BuiltinDetector::Iban(d) => d.priority(),
            BuiltinDetector::CreditCard(d) => d.priority(),
            BuiltinDetector::ProjectCode(d) => d.priority(),
            BuiltinDetector::ContractNumber(d) => d.priority(),
            BuiltinDetector::WorkOrder(d) => d.priority(),
            BuiltinDetector::PurchaseOrder(d) => d.priority(),
            BuiltinDetector::SerialNumber(d) => d.priority(),
            BuiltinDetector::CostCenter(d) => d.priority(),
        }
    }
}

} // verus!
