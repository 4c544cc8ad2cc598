//! The errors that the engine reports.

use crate::text::append;
use vstd::prelude::*;
use vstd::string::*;

verus! {

/// How a failure is reported to the caller.
#[derive(Clone, Copy, Debug, PartialEq, Eq, Structural)]
pub enum ErrorKind {
    /// The request was invalid.
    BadRequest,
    /// A run, sweep, project or path does not exist.
    NotFound,
    /// A path left the sandbox.
    Forbidden,
    /// The store or the filesystem failed.
    Internal,
}

/// A failure with the message shown to the caller.
#[derive(Debug)]
pub struct AppError {
    pub kind: ErrorKind,
    pub message: String,
}

/// Why a parameter map was rejected before any process was launched.
#[derive(Clone, Copy, Debug, PartialEq, Eq)]
pub enum ValidationError {
    /// A required parameter has no value and no default.
    MissingParameter(&'static str),
    /// A parameter was given a value that is not of its type and cannot be
    /// read as one: for a number, anything but a whole number or a text
    /// that writes one.
    InvalidParameter(&'static str),
    /// The project's kind has no parameter schema.
    UnknownProjectKind,
}

/// The HTTP status code under which a kind of error is reported.
pub open spec fn status_of(kind: ErrorKind) -> u16 {
    match kind {
        ErrorKind::BadRequest => 400,
        ErrorKind::NotFound => 404,
        ErrorKind::Forbidden => 403,
        ErrorKind::Internal => 500,
    }
}

/// The message that a validation error carries.
pub open spec fn validation_message(e: ValidationError) -> Seq<char> {
    match e {
        ValidationError::MissingParameter(key) => "Missing param: "@ + key@,
        ValidationError::InvalidParameter(key) => "Invalid param: "@ + key@,
        ValidationError::UnknownProjectKind => "Unknown project kind"@,
    }
}

impl AppError {
    /// An invalid request.
    pub fn bad_request(message: &str) -> (e: AppError)
        ensures
            e.kind == ErrorKind::BadRequest,
            e.message@ == message@,
    {
        AppError { kind: ErrorKind::BadRequest, message: message.to_string() }
    }

    /// Something that does not exist.
    pub fn not_found(message: &str) -> (e: AppError)
        ensures
            e.kind == ErrorKind::NotFound,
            e.message@ == message@,
    {
        AppError { kind: ErrorKind::NotFound, message: message.to_string() }
    }

    /// A path outside the sandbox.
    pub fn forbidden(message: &str) -> (e: AppError)
        ensures
            e.kind == ErrorKind::Forbidden,
            e.message@ == message@,
    {
        AppError { kind: ErrorKind::Forbidden, message: message.to_string() }
    }

    /// A failure of the store or of the filesystem.
    pub fn internal(message: &str) -> (e: AppError)
        ensures
            e.kind == ErrorKind::Internal,
            e.message@ == message@,
    {
        AppError { kind: ErrorKind::Internal, message: message.to_string() }
    }

    /// The HTTP status code of this error.
    pub fn status_code(&self) -> (code: u16)
        ensures
            code == status_of(self.kind),
    {
        match self.kind {
            ErrorKind::BadRequest => 400,
            ErrorKind::NotFound => 404,
            ErrorKind::Forbidden => 403,
            ErrorKind::Internal => 500,
        }
    }

    /// A rejected parameter map is a bad request.
    pub fn from_validation(e: ValidationError) -> (r: AppError)
        ensures
            r.kind == ErrorKind::BadRequest,
            r.message@ == validation_message(e),
    {
        let message: String = match e {
            ValidationError::MissingParameter(key) => append("Missing param: ", key),
            ValidationError::InvalidParameter(key) => append("Invalid param: ", key),
            ValidationError::UnknownProjectKind => "Unknown project kind".to_string(),
        };
        AppError { kind: ErrorKind::BadRequest, message }
    }
}

} // verus!
