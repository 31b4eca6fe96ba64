//! The two error kinds the service surfaces: an internal failure, answered
//! with a generic opaque message, and a field-level input validation
//! failure, answered as a field-to-message map with a success status (the
//! chat platform expects embedded errors, not an HTTP failure code).

use vstd::prelude::*;

verus! {

/// A failure surfaced at the service boundary.
#[derive(Debug, Clone, PartialEq)]
pub enum AppError {
    /// Any unexpected failure; the detail is logged, never shown.
    InternalServerError(String),
    /// A rejected submission, named by form field, shown to the submitter.
    InputValidationError { field_name: String, message: String },
}

#[verifier::ext_equal]
pub ghost enum AppErrorV {
    InternalServerError(Seq<char>),
    InputValidationError { field_name: Seq<char>, message: Seq<char> },
}

impl DeepView for AppError {
    type V = AppErrorV;

    open spec fn deep_view(&self) -> AppErrorV {
        match self {
            AppError::InternalServerError(s) => AppErrorV::InternalServerError(s@),
            AppError::InputValidationError { field_name, message } => {
                AppErrorV::InputValidationError { field_name: field_name@, message: message@ }
            },
        }
    }
}

impl AppError {
    /// The HTTP status of the boundary response: an internal failure is a
    /// server error; a validation failure is answered as a success whose
    /// body carries the embedded error map.
    pub fn status_code(&self) -> (c: u16)
        ensures
            self is InternalServerError ==> c == 500,
            self is InputValidationError ==> c == 200,
    {
        match self {
            AppError::InternalServerError(_) => 500,
            AppError::InputValidationError { .. } => 200,
        }
    }
}

/// The opaque text answered for an internal failure.
pub fn internal_error_text() -> (s: String)
    ensures
        s@ == "Something went wrong. See logs for details."@,
{
    "Something went wrong. See logs for details.".to_owned()
}

} // verus!
