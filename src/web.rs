//! The values that the HTTP facade exchanges.

use vstd::prelude::*;
use crate::audit_report::AuditReport;

verus! {

/// Request of the text endpoint.
pub struct AnonymizeRequest {
    pub text: String,
}

/// Response of the text endpoint.
pub struct AnonymizeResponse {
    pub anonymized_text: String,
    pub audit_report: AuditReport,
    pub hash: String,
}

/// Response of the file endpoint.
pub struct AnonymizeFileResponse {
    pub file_base64: String,
    pub filename: String,
    pub statistics: FileStatistics,
}

/// Counts reported for a processed file.
pub struct FileStatistics {
    pub total_detections: usize,
    pub processing_time_ms: u64,
}

/// An error reported to an HTTP client, as its message.
pub struct AppError(pub String);

} // verus!
