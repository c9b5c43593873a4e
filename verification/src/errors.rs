//! Error vocabulary of the store.
//!
//! The in-memory core produces only `Conflict`, `NotFound` and
//! `ValidationError`; the remaining variants belong to the edges around
//! the core (file handling, locking, serialization, the storage engine)
//! and are carried here so that callers see one error type.

use vstd::prelude::*;

verus! {

/// A failure of a store operation.
#[derive(Clone, PartialEq, Eq, Debug)]
pub enum DbError {
    /// The id, or an entity-specific uniqueness constraint, is already
    /// taken.
    Conflict,
    /// A referenced record does not exist.
    NotFound,
    /// A caller-supplied value violates an entity-specific constraint,
    /// such as an invalid enumeration label.
    ValidationError,
    /// The storage engine failed.
    SqliteError(String),
    /// A file operation failed.
    IoError(String),
    /// The store's directory could not be resolved.
    PathError(String),
    /// Exclusive access to the store could not be acquired.
    LockError(String),
    /// A structured field payload was malformed.
    SerializationError(String),
}

impl DbError {
    /// A short human-readable description of the error.
    pub fn message(&self) -> String {
        match self {
            DbError::Conflict => String::from_str("conflict: id or unique key already exists"),
            DbError::NotFound => String::from_str("not found"),
            DbError::ValidationError => String::from_str("validation error"),
            DbError::SqliteError(s) => String::from_str("SQLite error: ").concat(s.as_str()),
            DbError::IoError(s) => String::from_str("IO error: ").concat(s.as_str()),
            DbError::PathError(s) => String::from_str("path error: ").concat(s.as_str()),
            DbError::LockError(s) => String::from_str("lock error: ").concat(s.as_str()),
            DbError::SerializationError(s) => String::from_str("serialization error: ").concat(
                s.as_str(),
            ),
        }
    }
}

} // verus!
