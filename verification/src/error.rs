//! The error taxonomy of the backend and the HTTP status each kind maps to.

use vstd::prelude::*;
use vstd::string::*;

verus! {

/// The HTTP statuses that the backend fails with.
#[derive(Clone, Copy, Debug, PartialEq, Eq, Structural)]
pub enum HttpStatus {
    BadRequest,
    Unauthorized,
    Forbidden,
    NotFound,
    Conflict,
    InternalServerError,
    NotImplemented,
}

impl HttpStatus {
    /// The numeric code of the status.
    pub open spec fn spec_code(self) -> u16 {
        match self {
            HttpStatus::BadRequest => 400,
            HttpStatus::Unauthorized => 401,
            HttpStatus::Forbidden => 403,
            HttpStatus::NotFound => 404,
            HttpStatus::Conflict => 409,
            HttpStatus::InternalServerError => 500,
            HttpStatus::NotImplemented => 501,
        }
    }

    #[verifier::when_used_as_spec(spec_code)]
    pub fn code(self) -> (c: u16)
        ensures
            c == self.spec_code(),
    {
        match self {
            HttpStatus::BadRequest => 400,
            HttpStatus::Unauthorized => 401,
            HttpStatus::Forbidden => 403,
            HttpStatus::NotFound => 404,
            HttpStatus::Conflict => 409,
            HttpStatus::InternalServerError => 500,
            HttpStatus::NotImplemented => 501,
        }
    }
}

/// The answer of an operation that succeeded and has nothing to say.
#[derive(Clone, Copy, Debug, PartialEq, Eq, Structural)]
pub struct NoContent;

/// The JSON body `{message}` that accompanies every error.
#[derive(Debug, PartialEq, Eq)]
pub struct ErrorResponse {
    pub message: String,
}

/// Every failure of the backend is exactly one of these kinds, each with
/// the message shown to the caller.
#[derive(Debug, PartialEq, Eq)]
pub enum ApiError {
    BadRequest(String),
    Unauthorized(String),
    Forbidden(String),
    NotFound(String),
    Conflict(String),
    Internal(String),
    NotImplemented(String),
}

impl ApiError {
    /// The message carried by the error, whatever its kind.
    pub open spec fn spec_message(&self) -> Seq<char> {
        match self {
            ApiError::BadRequest(s) => s@,
            ApiError::Unauthorized(s) => s@,
            ApiError::Forbidden(s) => s@,
            ApiError::NotFound(s) => s@,
            ApiError::Conflict(s) => s@,
            ApiError::Internal(s) => s@,
            ApiError::NotImplemented(s) => s@,
        }
    }

    /// The status that answers for each kind of error.
    pub open spec fn spec_status(&self) -> HttpStatus {
        match self {
            ApiError::BadRequest(_) => HttpStatus::BadRequest,
            ApiError::Unauthorized(_) => HttpStatus::Unauthorized,
            ApiError::Forbidden(_) => HttpStatus::Forbidden,
            ApiError::NotFound(_) => HttpStatus::NotFound,
            ApiError::Conflict(_) => HttpStatus::Conflict,
            ApiError::Internal(_) => HttpStatus::InternalServerError,
            ApiError::NotImplemented(_) => HttpStatus::NotImplemented,
        }
    }

    pub fn status(&self) -> (s: HttpStatus)
        ensures
            s == self.spec_status(),
    {
        match self {
            ApiError::BadRequest(_) => HttpStatus::BadRequest,
            ApiError::Unauthorized(_) => HttpStatus::Unauthorized,
            ApiError::Forbidden(_) => HttpStatus::Forbidden,
            ApiError::NotFound(_) => HttpStatus::NotFound,
            ApiError::Conflict(_) => HttpStatus::Conflict,
            ApiError::Internal(_) => HttpStatus::InternalServerError,
            ApiError::NotImplemented(_) => HttpStatus::NotImplemented,
        }
    }

    /// The text of the error, as it is shown to the caller.
    pub fn message(&self) -> (m: String)
        ensures
            m@ == self.spec_message(),
    {
        match self {
            ApiError::BadRequest(s) => s.clone(),
            ApiError::Unauthorized(s) => s.clone(),
            ApiError::Forbidden(s) => s.clone(),
            ApiError::NotFound(s) => s.clone(),
            ApiError::Conflict(s) => s.clone(),
            ApiError::Internal(s) => s.clone(),
            ApiError::NotImplemented(s) => s.clone(),
        }
    }

    /// What is sent for this error: its status and the body carrying its
    /// message.
    pub fn respond_to(&self) -> (r: (HttpStatus, ErrorResponse))
        ensures
            r.0 == self.spec_status(),
            r.1.message@ == self.spec_message(),
    {
        (self.status(), ErrorResponse { message: self.message() })
    }
}

/// Body sent when a request carries no usable credentials.
pub fn unauthorized() -> (r: ErrorResponse)
    ensures
        r.message@ == "You need to authenticate to access this resource."@,
{
    ErrorResponse {
        message: String::from_str("You need to authenticate to access this resource."),
    }
}

/// Body sent when the caller lacks the capability an operation asks for.
pub fn forbidden() -> (r: ErrorResponse)
    ensures
        r.message@ == "You don't have permission to access this resource."@,
{
    ErrorResponse {
        message: String::from_str("You don't have permission to access this resource."),
    }
}

/// Body sent when no route matches.
pub fn not_found() -> (r: ErrorResponse)
    ensures
        r.message@ == "URL not found."@,
{
    ErrorResponse { message: String::from_str("URL not found.") }
}

/// Body sent when a well-formed request cannot be followed.
pub fn unprocessable() -> (r: ErrorResponse)
    ensures
        r.message@
            == "The request was well-formed but was unable to be followed due to semantic errors."@,
{
    ErrorResponse {
        message: String::from_str(
            "The request was well-formed but was unable to be followed due to semantic errors.",
        ),
    }
}

/// Body sent when the failure is the server's own.
pub fn internal() -> (r: ErrorResponse)
    ensures
        r.message@ == "Something went very wrong, and it most likely isn't your fault."@,
{
    ErrorResponse {
        message: String::from_str("Something went very wrong, and it most likely isn't your fault."),
    }
}

} // verus!
