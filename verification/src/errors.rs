//! The failures of the feed-source database layer.

use vstd::prelude::*;
use crate::text::{debug_str, str_debug};

verus! {

/// Why a feed-source operation failed.
#[derive(Debug)]
pub enum ApplicationError {
    ServerFailure,
    DatabaseConnectionFailed,
    DatabaseMigrationsFailed,
    DatabaseQueryFailed,
    DatabaseQueryError,
    UnexpectedError(&'static str),
}

/// The text of the error: the variant's name, and for an unexpected error
/// the message written as Rust writes a string literal in debug output.
pub open spec fn application_error_text(e: ApplicationError) -> Seq<char> {
    match e {
        ApplicationError::ServerFailure => "ServerFailure"@,
        ApplicationError::DatabaseConnectionFailed => "DatabaseConnectionFailed"@,
        ApplicationError::DatabaseMigrationsFailed => "DatabaseMigrationsFailed"@,
        ApplicationError::DatabaseQueryFailed => "DatabaseQueryFailed"@,
        ApplicationError::DatabaseQueryError => "DatabaseQueryError"@,
        ApplicationError::UnexpectedError(m) => "UnexpectedError("@ + str_debug(m@) + ")"@,
    }
}

impl ApplicationError {
    /// The error's text, the same as its debug form.
    pub fn describe(&self) -> (res: String)
        ensures
            res@ == application_error_text(*self),
    {
        match self {
            ApplicationError::ServerFailure => "ServerFailure".to_owned(),
            ApplicationError::DatabaseConnectionFailed => "DatabaseConnectionFailed".to_owned(),
            ApplicationError::DatabaseMigrationsFailed => "DatabaseMigrationsFailed".to_owned(),
            ApplicationError::DatabaseQueryFailed => "DatabaseQueryFailed".to_owned(),
            ApplicationError::DatabaseQueryError => "DatabaseQueryError".to_owned(),
            ApplicationError::UnexpectedError(m) => {
                let mut s = "UnexpectedError(".to_owned();
                let d = debug_str(m);
                s.append(d.as_str());
                s.append(")");
                s
            },
        }
    }
}

} // verus!
