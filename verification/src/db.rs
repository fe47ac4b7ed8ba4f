//! The decision logic of the database backend. The statements themselves are
//! I/O and run in the application around this crate; what is decided between
//! them — when an insert must not run, and what a driver failure means to the
//! caller — is pure and lives here.

use vstd::prelude::*;

use crate::entities::{Label, RepositoryError};

verus! {

/// A database statement's failure, as the application reports it: the row
/// was missing, or the driver failed with some detail.
#[derive(Debug, PartialEq, Eq)]
pub enum DbFailure {
    RowNotFound,
    ForeignKeyViolation,
    Other(String),
}

/// The lookup-before-insert decision of the database label create: a row
/// already carrying the name means the insert must not run, and the caller
/// is told the existing label's id.
pub fn label_create_decision(lookup: Option<Label>) -> (r: Result<(), RepositoryError>)
    ensures
        match lookup {
            Some(l) => r == Err::<(), RepositoryError>(RepositoryError::Duplicate(l.id)),
            None => r == Ok::<(), RepositoryError>(()),
        },
{
    match lookup {
        Some(l) => Err(RepositoryError::Duplicate(l.id)),
        None => Ok(()),
    }
}

/// The outcome classification of a database delete: no row touched or a
/// missing row both mean the id named nothing, any other driver failure
/// surfaces as `Unexpected` with the driver's detail.
pub fn db_delete_decision(id: i32, outcome: Result<u64, DbFailure>) -> (r: Result<
    (),
    RepositoryError,
>)
    ensures
        match outcome {
            Ok(rows) => (rows == 0 ==> r == Err::<(), RepositoryError>(
                RepositoryError::NotFound(id),
            )) && (rows != 0 ==> r == Ok::<(), RepositoryError>(())),
            Err(DbFailure::RowNotFound) => r == Err::<(), RepositoryError>(
                RepositoryError::NotFound(id),
            ),
            Err(DbFailure::ForeignKeyViolation) => r matches Err(e) && e@ is Unexpected,
            Err(DbFailure::Other(detail)) => r == Err::<(), RepositoryError>(
                RepositoryError::Unexpected(detail),
            ),
        },
{
    match outcome {
        Ok(rows) => {
            if rows == 0 {
                Err(RepositoryError::NotFound(id))
            } else {
                Ok(())
            }
        },
        Err(DbFailure::RowNotFound) => Err(RepositoryError::NotFound(id)),
        Err(DbFailure::ForeignKeyViolation) => Err(
            RepositoryError::Unexpected(String::from_str("foreign key violation")),
        ),
        Err(DbFailure::Other(detail)) => Err(RepositoryError::Unexpected(detail)),
    }
}

/// The error classification of the transactional todo create: a broken
/// reference while inserting the association row for one label id means that
/// id named no label — the whole transaction is rolled back by the caller —
/// while any other driver failure surfaces as `Unexpected`.
pub fn association_failure_decision(label_id: i32, failure: DbFailure) -> (r: RepositoryError)
    ensures
        match failure {
            DbFailure::RowNotFound => r == RepositoryError::NotFound(label_id),
            DbFailure::ForeignKeyViolation => r == RepositoryError::NotFound(label_id),
            DbFailure::Other(detail) => r == RepositoryError::Unexpected(detail),
        },
{
    match failure {
        DbFailure::RowNotFound => RepositoryError::NotFound(label_id),
        DbFailure::ForeignKeyViolation => RepositoryError::NotFound(label_id),
        DbFailure::Other(detail) => RepositoryError::Unexpected(detail),
    }
}

} // verus!
