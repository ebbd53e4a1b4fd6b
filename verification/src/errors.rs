//! Typed errors of the pipeline. Every failure the components surface is
//! tagged, so callers distinguish retryable conditions from fatal ones
//! without parsing messages.

use vstd::prelude::*;

verus! {

/// Failures of the storage model.
#[derive(Clone, Copy, Debug, PartialEq, Eq, Structural)]
pub enum StorageError {
    /// A lookup found no row.
    NotFound,
    /// An insert would break a uniqueness constraint; retrying the same
    /// insert can never succeed.
    ConstraintViolation,
}

/// How a chain-client failure is classified once the transport error has
/// been read.
#[derive(Clone, Copy, Debug, PartialEq, Eq, Structural)]
pub enum ClientErrorKind {
    /// The requested height exceeds the chain's current head. The same
    /// height must be retried after a backoff; the cursor must not
    /// advance.
    NotYetAvailable,
    /// A connectivity failure; retried with backoff up to a bounded
    /// policy, then fatal.
    Transient,
    /// Everything else; the pipeline stops.
    Fatal,
}

/// Errors of the ingestion pipeline.
#[derive(Clone, Copy, Debug, PartialEq, Eq, Structural)]
pub enum Error {
    /// One of the per-transaction fetches of a height failed, so the
    /// whole height failed.
    FetchingTransactionFailed,
    /// The chain client failed, with its classification.
    CosmosClientError(ClientErrorKind),
    /// The storage model refused an operation.
    DBError(StorageError),
    /// A transaction carried a message payload that is not valid JSON.
    InvalidJSONError,
    /// The configured start height was not positive.
    StartBlockMustBeGreaterThanZero,
    /// A failure that fits no other tag.
    UnexpectedError,
}

impl Error {
    /// Whether retrying the same operation may succeed: only the
    /// not-yet-available condition and transient connectivity failures
    /// qualify.
    pub open spec fn spec_is_retryable(self) -> bool {
        match self {
            Error::CosmosClientError(kind) => kind != ClientErrorKind::Fatal,
            _ => false,
        }
    }

    /// Classifies this error as retryable or fatal.
    pub fn is_retryable(&self) -> (r: bool)
        ensures
            r == self.spec_is_retryable(),
    {
        match self {
            Error::CosmosClientError(kind) => *kind != ClientErrorKind::Fatal,
            _ => false,
        }
    }
}

} // verus!
