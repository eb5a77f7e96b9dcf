//! Errors surfaced by the pipeline.

use vstd::prelude::*;

verus! {

#[verifier::external_type_specification]
#[verifier::external_body]
pub struct ExIoError(std::io::Error);

/// Errors that can occur during anonymization.
#[derive(Debug)]
pub enum AnonymizeError {
    /// Invalid UTF-8 at a byte position; reserved for hosts that decode bytes.
    InvalidUtf8 { position: usize },
    /// The input exceeds the maximum size.
    InputTooLarge { size: usize, max: usize },
    /// Misconfiguration supplied by the host.
    ConfigError { message: String },
    /// A detector's pattern did not compile.
    InvalidPattern { detector: String, message: String },
    /// A host-level read or write failure.
    Io(std::io::Error),
}

} // verus!
