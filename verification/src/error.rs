//! The service's error taxonomy. Malformed input is rejected with a typed
//! validation failure, never silently coerced; absence of coverage is not an
//! error and is reported through the normal result types instead.

use vstd::prelude::*;
use vstd::string::StringExecFns;

verus! {

/// A typed failure, each carrying a human-readable message.
#[derive(Debug)]
pub enum AppError {
    InternalServerError(String),
    BadRequest(String),
    Unauthorized(String),
    NotFound(String),
    DatabaseError(String),
    EmailError(String),
    ValidationError(String),
    Forbidden(String),
}

impl AppError {
    /// The message carried by the error.
    pub open spec fn spec_message(self) -> Seq<char> {
        match self {
            AppError::InternalServerError(m) => m@,
            AppError::BadRequest(m) => m@,
            AppError::Unauthorized(m) => m@,
            AppError::NotFound(m) => m@,
            AppError::DatabaseError(m) => m@,
            AppError::EmailError(m) => m@,
            AppError::ValidationError(m) => m@,
            AppError::Forbidden(m) => m@,
        }
    }

    /// The error's category label.
    pub open spec fn spec_label(self) -> Seq<char> {
        match self {
            AppError::InternalServerError(_) => "Internal Server Error"@,
            AppError::BadRequest(_) => "Bad Request"@,
            AppError::Unauthorized(_) => "Unauthorized"@,
            AppError::NotFound(_) => "Not Found"@,
            AppError::DatabaseError(_) => "Database Error"@,
            AppError::EmailError(_) => "Email Error"@,
            AppError::ValidationError(_) => "Validation Error"@,
            AppError::Forbidden(_) => "Forbidden"@,
        }
    }

    /// The error rendered as `label: message`.
    pub fn message(&self) -> (r: String)
        ensures
            r@ == self.spec_label() + ": "@ + self.spec_message(),
    {
        let mut out = match self {
            AppError::InternalServerError(_) => String::from_str("Internal Server Error"),
            AppError::BadRequest(_) => String::from_str("Bad Request"),
            AppError::Unauthorized(_) => String::from_str("Unauthorized"),
            AppError::NotFound(_) => String::from_str("Not Found"),
            AppError::DatabaseError(_) => String::from_str("Database Error"),
            AppError::EmailError(_) => String::from_str("Email Error"),
            AppError::ValidationError(_) => String::from_str("Validation Error"),
            AppError::Forbidden(_) => String::from_str("Forbidden"),
        };
        out.append(": ");
        let m = match self {
            AppError::InternalServerError(m) => m,
            AppError::BadRequest(m) => m,
            AppError::Unauthorized(m) => m,
            AppError::NotFound(m) => m,
            AppError::DatabaseError(m) => m,
            AppError::EmailError(m) => m,
            AppError::ValidationError(m) => m,
            AppError::Forbidden(m) => m,
        };
        out.append(m.as_str());
        out
    }
}

} // verus!
