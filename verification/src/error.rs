//! The error type of the backend and the HTTP answer each error gives.
use vstd::prelude::*;

verus! {

#[verifier::external_type_specification]
#[verifier::external_body]
pub struct ExIoError(std::io::Error);

/// Body of an error answer: `{"error": message}`.
pub struct ErrorResponse {
    pub error: String,
}

/// A unified error type for the application.
#[derive(Debug)]
pub enum AppError {
    /// An internal server error (500).
    InternalServerError(String),
    /// An I/O error (500, with a generic message).
    IoError(std::io::Error),
    /// Authentication failed (401).
    Unauthorized(String),
    /// The service is not ready (503).
    ServiceUnavailable(String),
    /// Invalid request parameters or body (400).
    BadRequest(String),
    /// A requested resource is not found (404).
    NotFound(String),
}

/// The message an I/O error is answered with, so as not to leak internals.
pub open spec fn io_error_message() -> Seq<char> {
    "An internal I/O error occurred"@
}

impl AppError {
    /// The HTTP status code that answers this error.
    pub open spec fn spec_status(&self) -> u16 {
        match self {
            AppError::InternalServerError(_) => 500,
            AppError::IoError(_) => 500,
            AppError::Unauthorized(_) => 401,
            AppError::ServiceUnavailable(_) => 503,
            AppError::BadRequest(_) => 400,
            AppError::NotFound(_) => 404,
        }
    }

    /// The message the answer carries.
    pub open spec fn spec_message(&self) -> Seq<char> {
        match self {
            AppError::InternalServerError(m) => m@,
            AppError::IoError(_) => io_error_message(),
            AppError::Unauthorized(m) => m@,
            AppError::ServiceUnavailable(m) => m@,
            AppError::BadRequest(m) => m@,
            AppError::NotFound(m) => m@,
        }
    }

    /// The status code and JSON body that answer this error.
    pub fn into_status_and_body(self) -> (r: (u16, ErrorResponse))
        ensures
            r.0 == self.spec_status(),
            r.1.error@ == self.spec_message(),
    {
        match self {
            AppError::InternalServerError(m) => (500, ErrorResponse { error: m }),
            AppError::IoError(_) => {
                let m = crate::text::str_chars("An internal I/O error occurred");
                (500, ErrorResponse { error: crate::text::chars_to_string(m.as_slice()) })
            },
            AppError::Unauthorized(m) => (401, ErrorResponse { error: m }),
            AppError::ServiceUnavailable(m) => (503, ErrorResponse { error: m }),
            AppError::BadRequest(m) => (400, ErrorResponse { error: m }),
            AppError::NotFound(m) => (404, ErrorResponse { error: m }),
        }
    }
}

impl From<std::io::Error> for AppError {
    fn from(err: std::io::Error) -> (r: Self) {
        AppError::IoError(err)
    }
}

impl vstd::std_specs::convert::FromSpecImpl<std::io::Error> for AppError {
    open spec fn obeys_from_spec() -> bool {
        true
    }

    open spec fn from_spec(v: std::io::Error) -> Self {
        AppError::IoError(v)
    }
}

} // verus!
