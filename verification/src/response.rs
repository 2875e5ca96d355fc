//! Response envelope and error taxonomy shared by every endpoint.

use vstd::prelude::*;

verus! {

/// Machine-readable error category; each maps to one HTTP status.
#[derive(Clone, Copy, Debug, PartialEq, Eq, Structural)]
pub enum ErrorKind {
    /// Malformed phone/email/coordinates/plan name.
    InvalidInput,
    /// Missing, invalid or expired credential; failed OTP.
    Unauthorized,
    /// Valid identity lacking the required verification status.
    Forbidden,
    /// Referenced record absent.
    NotFound,
    /// Duplicate creation of a one-per-owner record.
    Conflict,
    /// External provider failure.
    ServiceUnavailable,
    /// Store or other internal failure.
    Internal,
}

/// Error wrapper carried out of every fallible operation.
#[derive(Debug)]
pub struct ApiError {
    pub kind: ErrorKind,
    pub message: String,
}

impl ApiError {
    /// HTTP status code for the error's category.
    pub fn status(&self) -> (s: u16)
        ensures
            s == spec_status(self.kind),
    {
        match self.kind {
            ErrorKind::InvalidInput => 400,
            ErrorKind::Unauthorized => 401,
            ErrorKind::Forbidden => 403,
            ErrorKind::NotFound => 404,
            ErrorKind::Conflict => 409,
            ErrorKind::ServiceUnavailable => 500,
            ErrorKind::Internal => 500,
        }
    }

    pub fn bad_request(message: &str) -> (r: ApiError)
        ensures
            r.kind == ErrorKind::InvalidInput,
            r.message@ == message@,
    {
        ApiError { kind: ErrorKind::InvalidInput, message: String::from_str(message) }
    }

    pub fn unauthorized(message: &str) -> (r: ApiError)
        ensures
            r.kind == ErrorKind::Unauthorized,
            r.message@ == message@,
    {
        ApiError { kind: ErrorKind::Unauthorized, message: String::from_str(message) }
    }

    pub fn forbidden(message: &str) -> (r: ApiError)
        ensures
            r.kind == ErrorKind::Forbidden,
            r.message@ == message@,
    {
        ApiError { kind: ErrorKind::Forbidden, message: String::from_str(message) }
    }

    pub fn not_found(message: &str) -> (r: ApiError)
        ensures
            r.kind == ErrorKind::NotFound,
            r.message@ == message@,
    {
        ApiError { kind: ErrorKind::NotFound, message: String::from_str(message) }
    }

    pub fn conflict(message: &str) -> (r: ApiError)
        ensures
            r.kind == ErrorKind::Conflict,
            r.message@ == message@,
    {
        ApiError { kind: ErrorKind::Conflict, message: String::from_str(message) }
    }

    pub fn service_unavailable(message: &str) -> (r: ApiError)
        ensures
            r.kind == ErrorKind::ServiceUnavailable,
            r.message@ == message@,
    {
        ApiError { kind: ErrorKind::ServiceUnavailable, message: String::from_str(message) }
    }

    pub fn internal_error(message: &str) -> (r: ApiError)
        ensures
            r.kind == ErrorKind::Internal,
            r.message@ == message@,
    {
        ApiError { kind: ErrorKind::Internal, message: String::from_str(message) }
    }
}

/// HTTP status that `ApiError::status` reports for each category.
pub open spec fn spec_status(kind: ErrorKind) -> u16 {
    match kind {
        ErrorKind::InvalidInput => 400,
        ErrorKind::Unauthorized => 401,
        ErrorKind::Forbidden => 403,
        ErrorKind::NotFound => 404,
        ErrorKind::Conflict => 409,
        ErrorKind::ServiceUnavailable => 500,
        ErrorKind::Internal => 500,
    }
}

/// Generic response envelope: `{success, message?, data?}`.
#[derive(Debug)]
pub struct ApiResponse<T> {
    pub success: bool,
    pub message: Option<String>,
    pub data: Option<T>,
}

impl<T> ApiResponse<T> {
    pub fn success(data: T) -> (r: Self)
        ensures
            r.success,
            r.message is None,
            r.data == Some(data),
    {
        ApiResponse { success: true, message: None, data: Some(data) }
    }

    pub fn success_with_message(message: String, data: T) -> (r: Self)
        ensures
            r.success,
            r.message == Some(message),
            r.data == Some(data),
    {
        ApiResponse { success: true, message: Some(message), data: Some(data) }
    }

    pub fn error(message: String) -> (r: ApiResponse<()>)
        ensures
            !r.success,
            r.message == Some(message),
            r.data is None,
    {
        ApiResponse { success: false, message: Some(message), data: None }
    }
}

/// Catch-all payload for requests that matched no route.
pub fn not_found() -> (r: ApiResponse<()>)
    ensures
        !r.success,
        r.message matches Some(m) && m@ == "Resource not found"@,
        r.data is None,
{
    ApiResponse { success: false, message: Some(String::from_str("Resource not found")), data: None }
}

/// Catch-all payload for handlers that failed unexpectedly.
pub fn internal_error() -> (r: ApiResponse<()>)
    ensures
        !r.success,
        r.message matches Some(m) && m@ == "Internal server error"@,
        r.data is None,
{
    ApiResponse {
        success: false,
        message: Some(String::from_str("Internal server error")),
        data: None,
    }
}

} // verus!
