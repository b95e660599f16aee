//! Failures of a request, and how they are answered.

use vstd::prelude::*;
use vstd::string::*;

verus! {

/// Why a request failed.
#[derive(Debug)]
pub enum ApiError {
    /// The request makes no sense (400).
    BadRequest(String),
    /// The caller is not known (401).
    Unauthorized(String),
    /// The caller may not do this (403).
    Forbidden(String),
    /// The named thing does not exist (404).
    NotFound(String),
    /// The request contradicts what is stored (409).
    Conflict(String),
    /// The request holds a value that is not accepted (422).
    Validation(String),
    /// The caller sends too many requests (429).
    RateLimited,
    /// Something went wrong here (500).
    Internal(String),
    /// The database failed (500). What it said stays out of the answer.
    Database(String),
}

/// The kinds of failures.
#[derive(Clone, Copy, Debug, PartialEq, Eq, Structural)]
pub enum ErrorKind {
    BadRequest,
    Unauthorized,
    Forbidden,
    NotFound,
    Conflict,
    Validation,
    RateLimited,
    Internal,
    Database,
}

/// The result of a request.
pub type ApiResult<T> = Result<T, ApiError>;

impl View for ApiError {
    type V = (ErrorKind, Seq<char>);

    /// The kind of a failure and the text that it carries.
    open spec fn view(&self) -> (ErrorKind, Seq<char>) {
        match self {
            ApiError::BadRequest(m) => (ErrorKind::BadRequest, m@),
            ApiError::Unauthorized(m) => (ErrorKind::Unauthorized, m@),
            ApiError::Forbidden(m) => (ErrorKind::Forbidden, m@),
            ApiError::NotFound(m) => (ErrorKind::NotFound, m@),
            ApiError::Conflict(m) => (ErrorKind::Conflict, m@),
            ApiError::Validation(m) => (ErrorKind::Validation, m@),
            ApiError::RateLimited => (ErrorKind::RateLimited, Seq::empty()),
            ApiError::Internal(m) => (ErrorKind::Internal, m@),
            ApiError::Database(m) => (ErrorKind::Database, m@),
        }
    }
}

/// Whether a result is a failure of this kind with this text.
pub open spec fn fails<T>(res: ApiResult<T>, kind: ErrorKind, message: Seq<char>) -> bool {
    res matches Err(e) && e@ == (kind, message)
}

impl ErrorKind {
    /// The HTTP status of a kind of failure.
    pub open spec fn status_of(self) -> u16 {
        match self {
            ErrorKind::BadRequest => 400,
            ErrorKind::Unauthorized => 401,
            ErrorKind::Forbidden => 403,
            ErrorKind::NotFound => 404,
            ErrorKind::Conflict => 409,
            ErrorKind::Validation => 422,
            ErrorKind::RateLimited => 429,
            ErrorKind::Internal => 500,
            ErrorKind::Database => 500,
        }
    }

    /// The code of a kind of failure.
    pub open spec fn code_of(self) -> Seq<char> {
        match self {
            ErrorKind::BadRequest => "BAD_REQUEST"@,
            ErrorKind::Unauthorized => "UNAUTHORIZED"@,
            ErrorKind::Forbidden => "FORBIDDEN"@,
            ErrorKind::NotFound => "NOT_FOUND"@,
            ErrorKind::Conflict => "CONFLICT"@,
            ErrorKind::Validation => "VALIDATION_ERROR"@,
            ErrorKind::RateLimited => "RATE_LIMITED"@,
            ErrorKind::Internal => "INTERNAL_ERROR"@,
            ErrorKind::Database => "DATABASE_ERROR"@,
        }
    }
}

/// What a caller is told of a failure: its own text, but for the kinds whose text says
/// nothing to a caller.
pub open spec fn told(failure: (ErrorKind, Seq<char>)) -> Seq<char> {
    match failure.0 {
        ErrorKind::RateLimited => "Rate limit exceeded"@,
        ErrorKind::Database => "Database error"@,
        _ => failure.1,
    }
}

/// What a log says of a failure.
pub open spec fn logged(failure: (ErrorKind, Seq<char>)) -> Seq<char> {
    match failure.0 {
        ErrorKind::BadRequest => "Bad request: "@ + failure.1,
        ErrorKind::Unauthorized => "Unauthorized: "@ + failure.1,
        ErrorKind::Forbidden => "Forbidden: "@ + failure.1,
        ErrorKind::NotFound => failure.1 + " not found"@,
        ErrorKind::Conflict => "Conflict: "@ + failure.1,
        ErrorKind::Validation => "Validation error: "@ + failure.1,
        ErrorKind::RateLimited => "Rate limit exceeded"@,
        ErrorKind::Internal => "Internal error: "@ + failure.1,
        ErrorKind::Database => "Database error"@,
    }
}

/// The answer to a request that failed. Its body is the object `error` with the fields
/// `code` and `message`.
#[derive(Debug)]
pub struct ErrorEnvelope {
    pub status: u16,
    pub code: String,
    pub message: String,
}

/// The answer to a request that failed. Every failure is answered through this function,
/// so that all answers have the same shape.
pub fn error_envelope(status: u16, code: &str, message: String) -> (res: ErrorEnvelope)
    ensures
        res.status == status,
        res.code@ == code@,
        res.message@ == message@,
{
    ErrorEnvelope { status, code: code.to_string(), message }
}

fn labelled(label: &str, message: &String) -> (res: String)
    ensures
        res@ == label@ + message@,
{
    let mut res: String = label.to_string();
    res.append(message.as_str());
    res
}

impl ApiError {
    /// The HTTP status of the answer.
    pub fn status(&self) -> (res: u16)
        ensures
            res == self@.0.status_of(),
    {
        match self {
            ApiError::BadRequest(_) => 400,
            ApiError::Unauthorized(_) => 401,
            ApiError::Forbidden(_) => 403,
            ApiError::NotFound(_) => 404,
            ApiError::Conflict(_) => 409,
            ApiError::Validation(_) => 422,
            ApiError::RateLimited => 429,
            ApiError::Internal(_) => 500,
            ApiError::Database(_) => 500,
        }
    }

    /// The code of the answer.
    pub fn code(&self) -> (res: &'static str)
        ensures
            res@ == self@.0.code_of(),
    {
        match self {
            ApiError::BadRequest(_) => "BAD_REQUEST",
            ApiError::Unauthorized(_) => "UNAUTHORIZED",
            ApiError::Forbidden(_) => "FORBIDDEN",
            ApiError::NotFound(_) => "NOT_FOUND",
            ApiError::Conflict(_) => "CONFLICT",
            ApiError::Validation(_) => "VALIDATION_ERROR",
            ApiError::RateLimited => "RATE_LIMITED",
            ApiError::Internal(_) => "INTERNAL_ERROR",
            ApiError::Database(_) => "DATABASE_ERROR",
        }
    }

    /// The message of the answer.
    pub fn message(&self) -> (res: String)
        ensures
            res@ == told(self@),
    {
        match self {
            ApiError::BadRequest(m) => m.clone(),
            ApiError::Unauthorized(m) => m.clone(),
            ApiError::Forbidden(m) => m.clone(),
            ApiError::NotFound(m) => m.clone(),
            ApiError::Conflict(m) => m.clone(),
            ApiError::Validation(m) => m.clone(),
            ApiError::RateLimited => "Rate limit exceeded".to_string(),
            ApiError::Internal(m) => m.clone(),
            ApiError::Database(_) => "Database error".to_string(),
        }
    }

    /// The failure in one line.
    pub fn describe(&self) -> (res: String)
        ensures
            res@ == logged(self@),
    {
        match self {
            ApiError::BadRequest(m) => labelled("Bad request: ", m),
            ApiError::Unauthorized(m) => labelled("Unauthorized: ", m),
            ApiError::Forbidden(m) => labelled("Forbidden: ", m),
            ApiError::NotFound(m) => labelled(m.as_str(), &" not found".to_string()),
            ApiError::Conflict(m) => labelled("Conflict: ", m),
            ApiError::Validation(m) => labelled("Validation error: ", m),
            ApiError::RateLimited => "Rate limit exceeded".to_string(),
            ApiError::Internal(m) => labelled("Internal error: ", m),
            ApiError::Database(_) => "Database error".to_string(),
        }
    }

    /// The answer to a request that failed in this way.
    pub fn into_envelope(&self) -> (res: ErrorEnvelope)
        ensures
            res.status == self@.0.status_of(),
            res.code@ == self@.0.code_of(),
            res.message@ == told(self@),
    {
        error_envelope(self.status(), self.code(), self.message())
    }

    /// Whether the failure is to be written to the log of errors.
    pub fn is_internal(&self) -> (res: bool)
        ensures
            res == (self@.0.status_of() == 500),
    {
        self.status() == 500
    }
}

/// What a failing database said never reaches the caller: all its failures are answered
/// alike.
pub proof fn database_failures_are_answered_alike(a: ApiError, b: ApiError)
    requires
        a@.0 == ErrorKind::Database,
        b@.0 == ErrorKind::Database,
    ensures
        told(a@) == told(b@),
        a@.0.status_of() == b@.0.status_of(),
        a@.0.code_of() == b@.0.code_of(),
{
}

/// A failure of the caller has a status from 400 up to 499, one of the service 500.
pub proof fn status_tells_whose_failure(kind: ErrorKind)
    ensures
        400 <= kind.status_of() <= 500,
        kind.status_of() == 500 <==> (kind == ErrorKind::Internal || kind == ErrorKind::Database),
{
}

/// A failure is answered with the status and the code of its kind and with its own text, and the
/// log says what kind it is. What a failing database said is neither answered nor logged in that
/// line, and only a failure of the service is logged as an error.
pub proof fn failure_is_answered_by_its_kind(
    failure: ApiError,
    res: ErrorEnvelope,
    line: String,
    internal: bool,
)
    requires
        call_ensures(ApiError::into_envelope, (&failure,), res),
        call_ensures(ApiError::describe, (&failure,), line),
        call_ensures(ApiError::is_internal, (&failure,), internal),
    ensures
        failure matches ApiError::BadRequest(m) ==> res.status == 400 && res.code@ == "BAD_REQUEST"@
            && res.message@ == m@ && line@ == "Bad request: "@ + m@,
        failure matches ApiError::Unauthorized(m) ==> res.status == 401 && res.code@ == "UNAUTHORIZED"@
            && res.message@ == m@ && line@ == "Unauthorized: "@ + m@,
        failure matches ApiError::Forbidden(m) ==> res.status == 403 && res.code@ == "FORBIDDEN"@
            && res.message@ == m@ && line@ == "Forbidden: "@ + m@,
        failure matches ApiError::NotFound(m) ==> res.status == 404 && res.code@ == "NOT_FOUND"@
            && res.message@ == m@ && line@ == m@ + " not found"@,
        failure matches ApiError::Conflict(m) ==> res.status == 409 && res.code@ == "CONFLICT"@
            && res.message@ == m@ && line@ == "Conflict: "@ + m@,
        failure matches ApiError::Validation(m) ==> res.status == 422 && res.code@ == "VALIDATION_ERROR"@
            && res.message@ == m@ && line@ == "Validation error: "@ + m@,
        failure matches ApiError::Internal(m) ==> res.status == 500 && res.code@ == "INTERNAL_ERROR"@
            && res.message@ == m@ && line@ == "Internal error: "@ + m@,
        failure is RateLimited ==> res.status == 429 && res.code@ == "RATE_LIMITED"@
            && res.message@ == "Rate limit exceeded"@ && line@ == res.message@,
        failure is Database ==> res.status == 500 && res.code@ == "DATABASE_ERROR"@
            && res.message@ == "Database error"@ && line@ == res.message@,
        internal <==> failure is Internal || failure is Database,
{
}

/// The parts of an answer to a failure are those of its envelope, which keeps what it is given.
pub proof fn envelope_keeps_its_parts(
    status: u16,
    code: &str,
    message: String,
    res: ErrorEnvelope,
    failure: ApiError,
    own_status: u16,
    own_code: &'static str,
    own_message: String,
    answer: ErrorEnvelope,
)
    requires
        call_ensures(error_envelope, (status, code, message), res),
        call_ensures(ApiError::status, (&failure,), own_status),
        call_ensures(ApiError::code, (&failure,), own_code),
        call_ensures(ApiError::message, (&failure,), own_message),
        call_ensures(ApiError::into_envelope, (&failure,), answer),
    ensures
        res.status == status && res.code@ == code@ && res.message@ == message@,
        answer.status == own_status && answer.code@ == own_code@ && answer.message@
            == own_message@,
{
}

} // verus!
