//! Retrying failed operations: which errors are worth another attempt.
//! The backoff policy itself computes in floating point and stands outside
//! the library.

use vstd::prelude::*;

verus! {

/// An error that can say whether the operation that failed with it is
/// worth retrying.
pub trait RetryableError {
    /// Whether retrying may succeed.
    fn is_retryable(&self) -> bool;
}

} // verus!
