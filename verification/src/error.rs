//! The errors that validation and its collaborators report.

use vstd::prelude::*;

verus! {

/// A failure reported by the chain storage, with the storage's own message.
#[derive(Debug, Clone, PartialEq, Eq)]
pub struct ChainStorageError {
    pub message: String,
}

/// A failure of the difficulty retargeting to derive a target from its samples.
#[derive(Debug, Clone, Copy, PartialEq, Eq)]
pub struct DifficultyAdjustmentError {}

/// Why a header or a horizon state was rejected.
#[derive(Debug, Clone, PartialEq, Eq)]
pub enum ValidationError {
    /// The header's timestamp lies before the median of the preceding timestamps.
    InvalidTimestamp,
    /// The target difficulty that the header records is not the one derived from history.
    InvalidTargetDifficulty,
    /// The header's achieved difficulty is below the target.
    AchievedDifficultyTooLow,
    /// No target difficulty could be derived from history.
    InvalidProofOfWork,
    /// The sum of the unspent outputs does not balance at this horizon height.
    BalanceMismatch { height: u64 },
    /// The chain storage failed; the text is the storage's message.
    StorageFailure(String),
    /// Any other failure of a collaborator.
    CustomError(String),
}

impl ValidationError {
    /// The validation error that stands for a failure of the chain storage:
    /// it carries the storage's message and nothing else of the storage error.
    pub fn from_storage(err: ChainStorageError) -> (r: ValidationError)
        ensures
            r == ValidationError::StorageFailure(err.message),
    {
        ValidationError::StorageFailure(err.message)
    }
}

} // verus!
