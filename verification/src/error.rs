//! The application's error: an HTTP status code and a message.
use vstd::prelude::*;

verus! {

/// HTTP 400 Bad Request.
pub const STATUS_BAD_REQUEST: u16 = 400;
/// HTTP 401 Unauthorized.
pub const STATUS_UNAUTHORIZED: u16 = 401;
/// HTTP 403 Forbidden.
pub const STATUS_FORBIDDEN: u16 = 403;
/// HTTP 404 Not Found.
pub const STATUS_NOT_FOUND: u16 = 404;
/// HTTP 409 Conflict.
pub const STATUS_CONFLICT: u16 = 409;
/// HTTP 500 Internal Server Error.
pub const STATUS_INTERNAL_SERVER_ERROR: u16 = 500;

/// An error that maps to an HTTP status code.
pub struct AppError {
    pub status: u16,
    pub message: String,
}

impl AppError {
    /// A 404 error.
    pub fn not_found(msg: String) -> (r: Self)
        ensures
            r.status == STATUS_NOT_FOUND,
            r.message == msg,
    {
        AppError { status: STATUS_NOT_FOUND, message: msg }
    }

    /// A 400 error.
    pub fn bad_request(msg: String) -> (r: Self)
        ensures
            r.status == STATUS_BAD_REQUEST,
            r.message == msg,
    {
        AppError { status: STATUS_BAD_REQUEST, message: msg }
    }

    /// A 403 error.
    pub fn forbidden(msg: String) -> (r: Self)
        ensures
            r.status == STATUS_FORBIDDEN,
            r.message == msg,
    {
        AppError { status: STATUS_FORBIDDEN, message: msg }
    }

    /// A 500 error.
    pub fn internal(msg: String) -> (r: Self)
        ensures
            r.status == STATUS_INTERNAL_SERVER_ERROR,
            r.message == msg,
    {
        AppError { status: STATUS_INTERNAL_SERVER_ERROR, message: msg }
    }

    /// A 409 error.
    pub fn conflict(msg: String) -> (r: Self)
        ensures
            r.status == STATUS_CONFLICT,
            r.message == msg,
    {
        AppError { status: STATUS_CONFLICT, message: msg }
    }

    /// A 401 error.
    pub fn unauthorized(msg: String) -> (r: Self)
        ensures
            r.status == STATUS_UNAUTHORIZED,
            r.message == msg,
    {
        AppError { status: STATUS_UNAUTHORIZED, message: msg }
    }

    /// The 500 error that reports a failed database operation, given the
    /// database error's text.
    pub fn database(detail: &str) -> (r: Self)
        ensures
            r.status == STATUS_INTERNAL_SERVER_ERROR,
            r.message@ == "Database error: "@ + detail@,
    {
        let mut msg = String::from_str("Database error: ");
        msg.append(detail);
        AppError::internal(msg)
    }
}

impl From<AppError> for String {
    /// An error used where a plain message is expected keeps its message.
    fn from(e: AppError) -> (r: String) {
        e.message
    }
}

impl vstd::std_specs::convert::FromSpecImpl<AppError> for String {
    open spec fn obeys_from_spec() -> bool {
        true
    }

    open spec fn from_spec(e: AppError) -> String {
        e.message
    }
}

} // verus!
