//! The error taxonomy: typed failures for absent rows, rule violations,
//! unexpected storage failures, and an unset store handle.

use vstd::prelude::*;

verus! {

/// Every failure a store operation or handler can surface.
#[derive(Debug, PartialEq)]
pub enum AppError {
    /// A referenced row is absent where the operation requires one.
    NotFound(String),
    /// A validation or business-rule violation: duplicate key, built-in
    /// protection, missing id.
    BadRequest(String),
    /// Any unexpected storage-layer failure.
    InternalError(String),
    /// The store handle was never initialized.
    DatabaseNotConnected,
}

/// `e` is the `BadRequest` failure carrying exactly `msg`.
pub open spec fn is_bad_request(e: AppError, msg: Seq<char>) -> bool {
    e matches AppError::BadRequest(m) && m@ == msg
}

/// `e` is the `NotFound` failure carrying exactly `msg`.
pub open spec fn is_not_found(e: AppError, msg: Seq<char>) -> bool {
    e matches AppError::NotFound(m) && m@ == msg
}

impl AppError {
    /// The human-readable rendering of the error.
    pub open spec fn message_spec(self) -> Seq<char> {
        match self {
            AppError::NotFound(m) => "Not Found: "@ + m@,
            AppError::BadRequest(m) => "Bad Request: "@ + m@,
            AppError::InternalError(m) => "Internal Error: "@ + m@,
            AppError::DatabaseNotConnected => "Database not connected"@,
        }
    }

    /// Renders the error as the message a caller is shown.
    pub fn message(&self) -> (r: String)
        ensures
            r@ == self.message_spec(),
    {
        match self {
            AppError::NotFound(m) => String::from_str("Not Found: ").concat(m.as_str()),
            AppError::BadRequest(m) => String::from_str("Bad Request: ").concat(m.as_str()),
            AppError::InternalError(m) => String::from_str("Internal Error: ").concat(m.as_str()),
            AppError::DatabaseNotConnected => String::from_str("Database not connected"),
        }
    }

    /// Translates a storage-layer failure: an absent row becomes `NotFound`,
    /// anything else is surfaced as `InternalError` with its description.
    pub fn from_storage(row_not_found: bool, detail: String) -> (r: AppError)
        ensures
            row_not_found ==> is_not_found(r, "Record not found"@),
            !row_not_found ==> r == AppError::InternalError(detail),
    {
        if row_not_found {
            AppError::NotFound(String::from_str("Record not found"))
        } else {
            AppError::InternalError(detail)
        }
    }
}

} // verus!
