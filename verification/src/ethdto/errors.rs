//! Failures of the record store.

use vstd::prelude::*;
use vstd::string::*;

verus! {

/// Why a record store operation failed.
#[derive(Debug, Clone, Copy, PartialEq, Eq, Structural)]
pub enum RepoError {
    NoEntityFound,
    DatabaseError,
    FailedToQuery,
    FailedToGetConnection,
}

impl RepoError {
    /// The human-readable message of each error.
    pub open spec fn message_text(self) -> Seq<char> {
        match self {
            RepoError::NoEntityFound => "No such requested entity found"@,
            RepoError::DatabaseError => "Database error occured"@,
            RepoError::FailedToQuery => "Failed to query the database"@,
            RepoError::FailedToGetConnection => "Failed to get connection from the pool to execute the statement"@,
        }
    }

    /// The human-readable message of this error.
    pub fn message(&self) -> (s: String)
        ensures
            s@ == self.message_text(),
    {
        match self {
            RepoError::NoEntityFound => String::from_str("No such requested entity found"),
            RepoError::DatabaseError => String::from_str("Database error occured"),
            RepoError::FailedToQuery => String::from_str("Failed to query the database"),
            RepoError::FailedToGetConnection => String::from_str(
                "Failed to get connection from the pool to execute the statement",
            ),
        }
    }
}

} // verus!
