//! Error values shared by the repositories' decision logic.
use vstd::prelude::*;

verus! {

/// Why a collaboration or application request was refused.
#[derive(Debug, Clone, PartialEq, Eq)]
pub enum AppError {
    /// The record does not exist or is not visible to the caller.
    NotFound,
    /// The record already exists or the change collides with another.
    Conflict,
    /// The caller lacks the capability for the operation.
    Forbidden,
    /// A member draft is based on a stale canonical file revision.
    DraftConflict,
    /// Stored data violates an invariant of the model.
    Integrity { message: String },
}

/// The kind of an application error, without its message.
#[derive(Copy, Clone, Debug, PartialEq, Eq, Structural)]
pub enum ErrorKind {
    NotFound,
    Conflict,
    Forbidden,
    DraftConflict,
    Integrity,
}

/// The kind of an application error.
pub open spec fn error_kind(e: AppError) -> ErrorKind {
    match e {
        AppError::NotFound => ErrorKind::NotFound,
        AppError::Conflict => ErrorKind::Conflict,
        AppError::Forbidden => ErrorKind::Forbidden,
        AppError::DraftConflict => ErrorKind::DraftConflict,
        AppError::Integrity { .. } => ErrorKind::Integrity,
    }
}

/// Why database configuration or persisted state was rejected.
#[derive(Debug, Clone, PartialEq, Eq)]
pub enum PersistenceError {
    InvalidConfiguration { message: String },
    NotFound { entity: String },
    IntegrityViolation { message: String },
}

/// Why a governance request (file policies, template changes, restorations) was refused.
#[derive(Debug, Clone, PartialEq, Eq)]
pub enum V2Error {
    /// Stored or submitted state violates an invariant of the model.
    Integrity { message: String },
    /// The named record does not exist or is not visible to the caller.
    NotFound { entity: String },
    /// The request collides with the current state of the named record.
    Conflict { entity: String },
    /// The workspace head moved since the caller read it.
    VersionConflict { expected: u64, actual: u64 },
    /// A submitted name or seed set is malformed.
    InvalidName,
}

} // verus!
