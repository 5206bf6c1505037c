//! The error taxonomy of the pipeline.
use vstd::prelude::*;

verus! {

/// What can go wrong during a run.
///
/// A configuration error is fatal and raised before any file is touched.
/// Parse and rule-application errors are per file and aggregated; an
/// input/output error is fatal for the affected file.  Each variant carries
/// a user-facing message.
#[derive(Debug)]
pub enum TranspileError {
    Configuration(String),
    Parse(String),
    RuleApplication(String),
    Io(String),
}

impl TranspileError {
    /// The carried message, unchanged.
    pub fn message(&self) -> (r: &String)
        ensures
            r@ == (match self {
                TranspileError::Configuration(m) => m@,
                TranspileError::Parse(m) => m@,
                TranspileError::RuleApplication(m) => m@,
                TranspileError::Io(m) => m@,
            }),
    {
        match self {
            TranspileError::Configuration(m) => m,
            TranspileError::Parse(m) => m,
            TranspileError::RuleApplication(m) => m,
            TranspileError::Io(m) => m,
        }
    }
}

} // verus!
