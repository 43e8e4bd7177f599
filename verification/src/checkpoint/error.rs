//! What can go wrong with checkpoints.

use crate::text::concat2;
use vstd::prelude::*;

verus! {

/// What can go wrong with checkpoints.
#[derive(Debug)]
pub enum FileCheckpointError {
    /// An I/O operation failed; holds what it said.
    Io(String),
    /// Stored or observed data cannot be used.
    InvalidData(String),
    /// The lock on the state was poisoned.
    LockPoisoned,
    /// The lock that orders the operations was closed.
    OperationLockClosed,
}

impl FileCheckpointError {
    pub open spec fn text(self) -> Seq<char> {
        match self {
            FileCheckpointError::Io(error) => "file checkpoint I/O failed: "@ + error@,
            FileCheckpointError::InvalidData(error) => "file checkpoint data is invalid: "@
                + error@,
            FileCheckpointError::LockPoisoned => "file checkpoint state lock was poisoned"@,
            FileCheckpointError::OperationLockClosed
                => "file checkpoint operation lock was closed"@,
        }
    }

    /// The message for the user.
    pub fn message(&self) -> (r: String)
        ensures
            r@ == self.text(),
    {
        match self {
            FileCheckpointError::Io(error) => concat2(
                "file checkpoint I/O failed: ",
                error.as_str(),
            ),
            FileCheckpointError::InvalidData(error) => concat2(
                "file checkpoint data is invalid: ",
                error.as_str(),
            ),
            FileCheckpointError::LockPoisoned
                => "file checkpoint state lock was poisoned".to_owned(),
            FileCheckpointError::OperationLockClosed
                => "file checkpoint operation lock was closed".to_owned(),
        }
    }
}

} // verus!
