//! The bounded-retry policy at the commit boundary.
//!
//! A commit against a contended store may fail for a transient reason; the
//! engine retries the whole transfer from the first read, a bounded number
//! of times, and only then surfaces `Conflict`. The loop that performs the
//! attempts lives with the store; this module is the decision it consults
//! after every attempt.

use vstd::prelude::*;

use crate::errors::ApiError;

verus! {

/// What one commit attempt reported back.
#[derive(Clone, Copy, Debug, PartialEq, Eq, Structural)]
pub enum CommitOutcome {
    /// The whole transfer committed as one unit.
    Committed,
    /// A conflicting concurrent writer aborted the attempt; nothing
    /// persisted, and the transfer may be retried from the first read.
    TransientConflict,
    /// The store is unreachable; fatal to the call.
    StorageDown,
}

/// What to do after an attempt.
#[derive(Clone, Copy, Debug, PartialEq, Eq, Structural)]
pub enum RetryDecision {
    /// The transfer is committed; report success.
    Done,
    /// Run the transfer again from the first read.
    RetryAgain,
    /// The retry budget is spent; surface the error.
    GiveUp(ApiError),
}

/// The decision after an attempt that reported `outcome`, when
/// `attempts_made` attempts have now been made out of a budget of
/// `max_attempts`.
pub open spec fn spec_retry_decision(
    outcome: CommitOutcome,
    attempts_made: u32,
    max_attempts: u32,
) -> RetryDecision {
    match outcome {
        CommitOutcome::Committed => RetryDecision::Done,
        CommitOutcome::StorageDown => RetryDecision::GiveUp(ApiError::StorageUnavailable),
        CommitOutcome::TransientConflict => if attempts_made < max_attempts {
            RetryDecision::RetryAgain
        } else {
            RetryDecision::GiveUp(ApiError::Conflict)
        },
    }
}

/// Decides the engine's next move: success and fatal storage faults
/// surface at once; a transient conflict is retried while the budget
/// lasts and surfaces as `Conflict` once it is spent.
pub fn retry_decision(outcome: CommitOutcome, attempts_made: u32, max_attempts: u32) -> (d:
    RetryDecision)
    ensures
        d == spec_retry_decision(outcome, attempts_made, max_attempts),
{
    match outcome {
        CommitOutcome::Committed => RetryDecision::Done,
        CommitOutcome::StorageDown => RetryDecision::GiveUp(ApiError::StorageUnavailable),
        CommitOutcome::TransientConflict => {
            if attempts_made < max_attempts {
                RetryDecision::RetryAgain
            } else {
                RetryDecision::GiveUp(ApiError::Conflict)
            }
        },
    }
}

} // verus!
