//! Errors of the batching dispatcher.
use vstd::prelude::*;

verus! {

/// What can go wrong while configuring the dispatcher or serving a request.
#[derive(Clone, Debug, PartialEq, Eq)]
pub enum BatchError {
    /// The configuration is invalid; the message names the offending setting.
    ConfigError(String),
    /// A batch does not have the size that was asked of it.
    InvalidBatchSize { size: usize, max: usize },
    /// A request waited, or would have waited, longer than the latency bound.
    TimeoutExceeded { expected_ms: u64, actual_ms: u64 },
    /// The batch processor failed.
    ProcessingError(String),
    /// An internal failure of the dispatcher.
    Internal(String),
    /// The dispatcher shut down before the request was served.
    Shutdown,
}

impl BatchError {
    /// A copy of this error.
    pub fn duplicate(&self) -> (e: BatchError)
        ensures
            e == *self,
    {
        match self {
            BatchError::ConfigError(m) => BatchError::ConfigError(m.clone()),
            BatchError::InvalidBatchSize { size, max } => BatchError::InvalidBatchSize {
                size: *size,
                max: *max,
            },
            BatchError::TimeoutExceeded { expected_ms, actual_ms } => BatchError::TimeoutExceeded {
                expected_ms: *expected_ms,
                actual_ms: *actual_ms,
            },
            BatchError::ProcessingError(m) => BatchError::ProcessingError(m.clone()),
            BatchError::Internal(m) => BatchError::Internal(m.clone()),
            BatchError::Shutdown => BatchError::Shutdown,
        }
    }
}

/// The result type of the batching dispatcher.
pub type Result<T> = core::result::Result<T, BatchError>;

} // verus!
