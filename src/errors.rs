//! Errors of flag management, with their messages.

use vstd::prelude::*;

verus! {

/// Errors of the storage layer.
#[derive(Clone, Debug, PartialEq)]
pub enum StorageError {
    /// Connection failed.
    Connection(String),
    /// A query failed.
    Query(String),
    /// A record was not found.
    NotFound(String),
    /// A conflicting change (e.g. concurrent modification).
    Conflict(String),
    /// A transaction failed.
    Transaction(String),
    /// A migration failed.
    Migration(String),
}

/// The message of a storage error.
pub open spec fn storage_message(e: StorageError) -> Seq<char> {
    match e {
        StorageError::Connection(s) => "Connection error: "@ + s@,
        StorageError::Query(s) => "Query error: "@ + s@,
        StorageError::NotFound(s) => "Record not found: "@ + s@,
        StorageError::Conflict(s) => "Conflict: "@ + s@,
        StorageError::Transaction(s) => "Transaction error: "@ + s@,
        StorageError::Migration(s) => "Migration error: "@ + s@,
    }
}

fn prefixed(prefix: &str, detail: &String) -> (r: String)
    ensures
        r@ == prefix@ + detail@,
{
    let mut r = String::from_str(prefix);
    r.append(detail.as_str());
    r
}

impl StorageError {
    /// The message of this error.
    pub fn message(&self) -> (r: String)
        ensures
            r@ == storage_message(*self),
    {
        match self {
            StorageError::Connection(s) => prefixed("Connection error: ", s),
            StorageError::Query(s) => prefixed("Query error: ", s),
            StorageError::NotFound(s) => prefixed("Record not found: ", s),
            StorageError::Conflict(s) => prefixed("Conflict: ", s),
            StorageError::Transaction(s) => prefixed("Transaction error: ", s),
            StorageError::Migration(s) => prefixed("Migration error: ", s),
        }
    }
}

/// Errors of flag management.
#[derive(Clone, Debug, PartialEq)]
pub enum FlapsError {
    /// A flag was not found.
    FlagNotFound(String),
    /// An environment was not found.
    EnvironmentNotFound(String),
    /// A project was not found.
    ProjectNotFound(String),
    /// A segment was not found.
    SegmentNotFound(String),
    /// A rule is not valid.
    InvalidRule(String),
    /// An attribute value is not valid.
    InvalidAttributeValue(String),
    /// A flag key is not valid.
    InvalidFlagKey(String),
    /// A key is already taken.
    DuplicateKey(String),
    /// A validation failed.
    Validation(String),
    /// The storage layer failed.
    Storage(StorageError),
    /// Serialization failed.
    Serialization(String),
    /// An internal error.
    Internal(String),
}

/// The message of an error.
pub open spec fn error_message(e: FlapsError) -> Seq<char> {
    match e {
        FlapsError::FlagNotFound(s) => "Flag not found: "@ + s@,
        FlapsError::EnvironmentNotFound(s) => "Environment not found: "@ + s@,
        FlapsError::ProjectNotFound(s) => "Project not found: "@ + s@,
        FlapsError::SegmentNotFound(s) => "Segment not found: "@ + s@,
        FlapsError::InvalidRule(s) => "Invalid rule: "@ + s@,
        FlapsError::InvalidAttributeValue(s) => "Invalid attribute value: "@ + s@,
        FlapsError::InvalidFlagKey(s) => "Invalid flag key: "@ + s@,
        FlapsError::DuplicateKey(s) => "Duplicate key: "@ + s@,
        FlapsError::Validation(s) => "Validation error: "@ + s@,
        FlapsError::Storage(e) => "Storage error: "@ + storage_message(e),
        FlapsError::Serialization(s) => "Serialization error: "@ + s@,
        FlapsError::Internal(s) => "Internal error: "@ + s@,
    }
}

impl FlapsError {
    /// A flag-not-found error.
    pub fn flag_not_found(key: &str) -> (r: FlapsError)
        ensures
            r is FlagNotFound && r->FlagNotFound_0@ == key@,
    {
        FlapsError::FlagNotFound(key.to_owned())
    }

    /// An environment-not-found error.
    pub fn environment_not_found(key: &str) -> (r: FlapsError)
        ensures
            r is EnvironmentNotFound && r->EnvironmentNotFound_0@ == key@,
    {
        FlapsError::EnvironmentNotFound(key.to_owned())
    }

    /// A project-not-found error.
    pub fn project_not_found(key: &str) -> (r: FlapsError)
        ensures
            r is ProjectNotFound && r->ProjectNotFound_0@ == key@,
    {
        FlapsError::ProjectNotFound(key.to_owned())
    }

    /// A validation error.
    pub fn validation(message: &str) -> (r: FlapsError)
        ensures
            r is Validation && r->Validation_0@ == message@,
    {
        FlapsError::Validation(message.to_owned())
    }

    /// Whether something was not found: a flag, an environment, a project,
    /// a segment, or a storage record.
    pub fn is_not_found(&self) -> (r: bool)
        ensures
            r == (match *self {
                FlapsError::FlagNotFound(_) | FlapsError::EnvironmentNotFound(_)
                | FlapsError::ProjectNotFound(_) | FlapsError::SegmentNotFound(_) => true,
                FlapsError::Storage(StorageError::NotFound(_)) => true,
                _ => false,
            }),
    {
        match self {
            FlapsError::FlagNotFound(_) | FlapsError::EnvironmentNotFound(_)
            | FlapsError::ProjectNotFound(_) | FlapsError::SegmentNotFound(_) => true,
            FlapsError::Storage(StorageError::NotFound(_)) => true,
            _ => false,
        }
    }

    /// Whether this is a conflict: a duplicate key, or a storage conflict.
    pub fn is_conflict(&self) -> (r: bool)
        ensures
            r == (match *self {
                FlapsError::DuplicateKey(_) => true,
                FlapsError::Storage(StorageError::Conflict(_)) => true,
                _ => false,
            }),
    {
        match self {
            FlapsError::DuplicateKey(_) => true,
            FlapsError::Storage(StorageError::Conflict(_)) => true,
            _ => false,
        }
    }

    /// The message of this error.
    pub fn message(&self) -> (r: String)
        ensures
            r@ == error_message(*self),
    {
        match self {
            FlapsError::FlagNotFound(s) => prefixed("Flag not found: ", s),
            FlapsError::EnvironmentNotFound(s) => prefixed("Environment not found: ", s),
            FlapsError::ProjectNotFound(s) => prefixed("Project not found: ", s),
            FlapsError::SegmentNotFound(s) => prefixed("Segment not found: ", s),
            FlapsError::InvalidRule(s) => prefixed("Invalid rule: ", s),
            FlapsError::InvalidAttributeValue(s) => prefixed("Invalid attribute value: ", s),
            FlapsError::InvalidFlagKey(s) => prefixed("Invalid flag key: ", s),
            FlapsError::DuplicateKey(s) => prefixed("Duplicate key: ", s),
            FlapsError::Validation(s) => prefixed("Validation error: ", s),
            FlapsError::Storage(e) => {
                let mut r = String::from_str("Storage error: ");
                let m = e.message();
                r.append(m.as_str());
                r
            },
            FlapsError::Serialization(s) => prefixed("Serialization error: ", s),
            FlapsError::Internal(s) => prefixed("Internal error: ", s),
        }
    }
}

impl From<StorageError> for FlapsError {
    fn from(e: StorageError) -> (r: FlapsError) {
        FlapsError::Storage(e)
    }
}

impl vstd::std_specs::convert::FromSpecImpl<StorageError> for FlapsError {
    open spec fn obeys_from_spec() -> bool {
        true
    }

    open spec fn from_spec(e: StorageError) -> FlapsError {
        FlapsError::Storage(e)
    }
}

} // verus!
