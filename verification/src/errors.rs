//! The two failure modes of the aggregator state machine.

use vstd::prelude::*;

verus! {

/// How an aggregator operation can fail.
///
/// Overflow and underflow of `try_add` / `try_sub` are *not* errors: they are
/// first-class `Ok(false)` outcomes that user code branches on. An error means
/// the state machine itself cannot proceed.
#[derive(Clone, Copy, Debug, PartialEq, Eq, Structural)]
pub enum AggregatorError {
    /// Speculative information became invalid: the resolver reported a deleted
    /// aggregator, or the recorded history does not hold of the materialized
    /// base value. The transaction should be re-executed.
    Extension,
    /// A precondition of the state machine was breached. The transaction is
    /// aborted, not retried.
    CodeInvariant,
}

/// Error for a failed read through the resolver or an invalidated history.
pub fn extension_error() -> (e: AggregatorError)
    ensures
        e == AggregatorError::Extension,
{
    AggregatorError::Extension
}

/// Error for a breached precondition of the state machine.
pub fn code_invariant_error() -> (e: AggregatorError)
    ensures
        e == AggregatorError::CodeInvariant,
{
    AggregatorError::CodeInvariant
}

} // verus!
