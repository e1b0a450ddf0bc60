//! Structured, per-source extraction failures.

use vstd::prelude::*;

verus! {

/// Why a source's balance could not be read from a payload whose relevant
/// fields were not entirely absent.
#[derive(Debug)]
pub enum BalanceError {
    /// A field the source was expected to report is missing.
    MissingField(&'static str),
    /// A field is present but does not parse as a decimal amount.
    ParseError(&'static str),
}

/// One source's extraction failure: the platform it came from, the offending
/// field, and the full raw payload, kept for operator diagnostics. A failure
/// is reported, never fatal: the other source's reading still goes into the
/// cycle's snapshot.
#[derive(Debug)]
pub struct ExtractionFailure {
    pub platform: String,
    pub error: BalanceError,
    pub json: serde_json::Value,
}

} // verus!
