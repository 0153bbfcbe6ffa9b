//! The failures that the queue's storage reports.

use vstd::prelude::*;

verus! {

/// Why a queue operation could not reach or change the job table.
#[derive(Debug, Clone, Copy, PartialEq, Eq, Structural)]
pub enum StorageError {
    /// The storage handle holds no table yet.
    NotInitialized,
    /// The table has handed out its largest identity and accepts no new row.
    IdentitiesExhausted,
}

impl StorageError {
    /// The cause as text, for a caller that reports failures as strings.
    pub fn message(&self) -> (text: String)
        ensures
            text@ == match *self {
                StorageError::NotInitialized => "Database not initialized"@,
                StorageError::IdentitiesExhausted => "Failed to enqueue public highlight job: identities exhausted"@,
            },
    {
        match self {
            StorageError::NotInitialized => "Database not initialized".to_owned(),
            StorageError::IdentitiesExhausted => {
                "Failed to enqueue public highlight job: identities exhausted".to_owned()
            },
        }
    }
}

} // verus!
