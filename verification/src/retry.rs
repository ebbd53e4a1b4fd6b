//! The retry policy of the fetch loop: a height the chain has not
//! produced yet waits on its own longer backoff and never counts as a
//! failure; a transient failure is retried with backoff a bounded number
//! of times and then aborts the pipeline; anything else aborts at once.

use vstd::prelude::*;
use crate::errors::ClientErrorKind;
use crate::sequencer::WAIT_FOR_HEIGHT_BACKOFF_MS;

verus! {

/// How many consecutive transient failures are retried before the
/// pipeline gives up.
pub const MAX_FETCH_RETRIES: u32 = 10;

/// How long to wait before retrying after a transient failure, in
/// milliseconds.
pub const TRANSIENT_RETRY_BACKOFF_MS: u64 = 1000;

/// What the fetch loop does next after a fetch attempt failed.
#[derive(Clone, Copy, Debug, PartialEq, Eq, Structural)]
pub enum RetryDecision {
    /// Retry the same height after the given backoff.
    Retry { backoff_ms: u64 },
    /// The height is not produced yet: poll the same height again after
    /// the given (longer) backoff, without consuming a retry.
    WaitForHeight { backoff_ms: u64 },
    /// Stop the pipeline; an operator must intervene.
    Abort,
}

/// Counts consecutive transient failures against a bound.
#[derive(Clone, Copy, Debug, PartialEq, Eq, Structural)]
pub struct RetryPolicy {
    /// The bound on consecutive transient failures.
    pub max_retries: u32,
    /// Consecutive transient failures so far.
    pub retry_count: u32,
}

impl RetryPolicy {
    /// Creates a policy allowing `max_retries` consecutive transient
    /// failures.
    pub fn new(max_retries: u32) -> (r: RetryPolicy)
        ensures
            r.max_retries == max_retries,
            r.retry_count == 0,
    {
        RetryPolicy { max_retries, retry_count: 0 }
    }

    /// A successful fetch resets the failure count.
    pub fn on_success(&mut self)
        ensures
            final(self).max_retries == old(self).max_retries,
            final(self).retry_count == 0,
    {
        self.retry_count = 0;
    }

    /// Decides what the loop does after a failed fetch. A
    /// not-yet-available height waits and never consumes a retry nor
    /// aborts; a transient failure retries until the bound is spent, then
    /// aborts; a fatal failure aborts at once.
    pub fn on_error(&mut self, kind: ClientErrorKind) -> (r: RetryDecision)
        ensures
            final(self).max_retries == old(self).max_retries,
            kind == ClientErrorKind::NotYetAvailable ==> {
                &&& r == RetryDecision::WaitForHeight { backoff_ms: WAIT_FOR_HEIGHT_BACKOFF_MS }
                &&& *final(self) == *old(self)
            },
            kind == ClientErrorKind::Transient && old(self).retry_count < old(self).max_retries
                ==> {
                &&& r == RetryDecision::Retry { backoff_ms: TRANSIENT_RETRY_BACKOFF_MS }
                &&& final(self).retry_count == old(self).retry_count + 1
            },
            kind == ClientErrorKind::Transient && old(self).retry_count >= old(self).max_retries
                ==> {
                &&& r == RetryDecision::Abort
                &&& *final(self) == *old(self)
            },
            kind == ClientErrorKind::Fatal ==> {
                &&& r == RetryDecision::Abort
                &&& *final(self) == *old(self)
            },
    {
        match kind {
            ClientErrorKind::NotYetAvailable => RetryDecision::WaitForHeight {
                backoff_ms: WAIT_FOR_HEIGHT_BACKOFF_MS,
            },
            ClientErrorKind::Transient => {
                if self.retry_count < self.max_retries {
                    self.retry_count = self.retry_count + 1;
                    RetryDecision::Retry { backoff_ms: TRANSIENT_RETRY_BACKOFF_MS }
                } else {
                    RetryDecision::Abort
                }
            },
            ClientErrorKind::Fatal => RetryDecision::Abort,
        }
    }
}

} // verus!
