//! The error model of the persistent backends.
//!
//! The in-memory store in this crate never fails, so no verified function
//! constructs these values; they describe the failures a durable backend
//! (connection loss, malformed rows, migrations, backups) reports, and the
//! application shell maps its backend errors onto them.

use vstd::prelude::*;

verus! {

/// What went wrong, where, and from what underlying cause.
#[derive(Debug, Clone)]
pub struct ErrorDetails {
    /// The backend the failure came from.
    pub backend: String,
    /// A human-readable description.
    pub description: String,
    /// The underlying cause, rendered as text, if one is known.
    pub source: Option<String>,
}

/// A failure of the durable store.
#[derive(Debug, Clone)]
pub enum DatabaseError {
    ConnectionError(ErrorDetails),
    QueryError(ErrorDetails),
    ParsingError(ErrorDetails),
    MigrationError(ErrorDetails),
    BackupError(ErrorDetails),
}

impl DatabaseError {
    /// The details carried by any of the variants.
    pub fn details(&self) -> (r: &ErrorDetails)
        ensures
            r == (match self {
                DatabaseError::ConnectionError(details) => details,
                DatabaseError::QueryError(details) => details,
                DatabaseError::ParsingError(details) => details,
                DatabaseError::MigrationError(details) => details,
                DatabaseError::BackupError(details) => details,
            }),
    {
        match self {
            DatabaseError::ConnectionError(details) => details,
            DatabaseError::QueryError(details) => details,
            DatabaseError::ParsingError(details) => details,
            DatabaseError::MigrationError(details) => details,
            DatabaseError::BackupError(details) => details,
        }
    }
}

} // verus!
