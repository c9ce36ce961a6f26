//! The unified error taxonomy, its transport status codes and the envelope
//! that every failure is rendered into.
use vstd::prelude::*;

use crate::text::push_all;
use crate::validation::Violation;
use vstd::string::StringExecFns;

verus! {

/// Every failure that a request can meet before it reaches business logic.
#[derive(Debug)]
pub enum ApiError {
    NotFound,
    MethodNotAllowed,
    /// The query string did not parse into the expected shape.
    InvalidQueryParams(String),
    /// A path segment did not parse into the expected shape.
    InvalidPathParams(String),
    /// The body did not parse into the expected shape.
    InvalidJsonBody(String),
    /// The request was well-formed but broke field rules: every broken rule,
    /// in order.
    ValidationError(Vec<Violation>),
    /// A credential could not be hashed or checked.
    HashPassword(String),
    /// No usable bearer token: absent, of another scheme, badly signed,
    /// expired or with a malformed subject, all alike.
    Unauthenticated,
    /// Unknown account or wrong password, all alike.
    LoginError,
    /// An unexpected failure; its cause is kept for the server log only.
    Internal(String),
}

pub type ApiResult<T> = Result<T, ApiError>;

pub const STATUS_OK: u16 = 200;
pub const STATUS_BAD_REQUEST: u16 = 400;
pub const STATUS_UNAUTHORIZED: u16 = 401;
pub const STATUS_NOT_FOUND: u16 = 404;
pub const STATUS_METHOD_NOT_ALLOWED: u16 = 405;
pub const STATUS_UNPROCESSABLE_ENTITY: u16 = 422;
pub const STATUS_INTERNAL_SERVER_ERROR: u16 = 500;

/// The transport status of each kind of error.
pub open spec fn status_of(e: &ApiError) -> u16 {
    match e {
        ApiError::NotFound => STATUS_NOT_FOUND,
        ApiError::MethodNotAllowed => STATUS_METHOD_NOT_ALLOWED,
        ApiError::InvalidQueryParams(_) => STATUS_BAD_REQUEST,
        ApiError::InvalidPathParams(_) => STATUS_BAD_REQUEST,
        ApiError::InvalidJsonBody(_) => STATUS_BAD_REQUEST,
        ApiError::ValidationError(_) => STATUS_UNPROCESSABLE_ENTITY,
        ApiError::HashPassword(_) => STATUS_UNAUTHORIZED,
        ApiError::Unauthenticated => STATUS_UNAUTHORIZED,
        ApiError::LoginError => STATUS_UNAUTHORIZED,
        ApiError::Internal(_) => STATUS_INTERNAL_SERVER_ERROR,
    }
}

/// The message that the client sees for each kind of error. Causes of
/// credential and internal failures stay out of it.
pub open spec fn message_of(e: &ApiError) -> Seq<char> {
    match e {
        ApiError::NotFound => "Not Found"@,
        ApiError::MethodNotAllowed => "Method Not Allowed"@,
        ApiError::InvalidQueryParams(m) => "Invalid query parameters: "@ + m@,
        ApiError::InvalidPathParams(m) => "Invalid path parameters: "@ + m@,
        ApiError::InvalidJsonBody(m) => "Invalid json body: "@ + m@,
        ApiError::ValidationError(_) => "Validation error"@,
        ApiError::HashPassword(_) => "Failed to process the credential"@,
        ApiError::Unauthenticated => "Unauthorized"@,
        ApiError::LoginError => "Account or Password is incorrect"@,
        ApiError::Internal(_) => "Internal Server Error"@,
    }
}

/// The uniform error envelope: numeric code, message, and the broken field
/// rules when there are any.
#[derive(Debug)]
pub struct ErrorResponse {
    pub code: u16,
    pub error: String,
    pub violations: Vec<Violation>,
}

impl ApiError {
    /// The transport status of this error.
    pub fn status_code(&self) -> (r: u16)
        ensures
            r == status_of(self),
    {
        match self {
            ApiError::NotFound => STATUS_NOT_FOUND,
            ApiError::MethodNotAllowed => STATUS_METHOD_NOT_ALLOWED,
            ApiError::InvalidQueryParams(_) => STATUS_BAD_REQUEST,
            ApiError::InvalidPathParams(_) => STATUS_BAD_REQUEST,
            ApiError::InvalidJsonBody(_) => STATUS_BAD_REQUEST,
            ApiError::ValidationError(_) => STATUS_UNPROCESSABLE_ENTITY,
            ApiError::HashPassword(_) => STATUS_UNAUTHORIZED,
            ApiError::Unauthenticated => STATUS_UNAUTHORIZED,
            ApiError::LoginError => STATUS_UNAUTHORIZED,
            ApiError::Internal(_) => STATUS_INTERNAL_SERVER_ERROR,
        }
    }

    /// The message that the client sees.
    pub fn message(&self) -> (r: String)
        ensures
            r@ == message_of(self),
    {
        match self {
            ApiError::NotFound => String::from_str("Not Found"),
            ApiError::MethodNotAllowed => String::from_str("Method Not Allowed"),
            ApiError::InvalidQueryParams(m) => {
                let mut r = String::from_str("Invalid query parameters: ");
                push_all(&mut r, m.as_str());
                r
            },
            ApiError::InvalidPathParams(m) => {
                let mut r = String::from_str("Invalid path parameters: ");
                push_all(&mut r, m.as_str());
                r
            },
            ApiError::InvalidJsonBody(m) => {
                let mut r = String::from_str("Invalid json body: ");
                push_all(&mut r, m.as_str());
                r
            },
            ApiError::ValidationError(_) => String::from_str("Validation error"),
            ApiError::HashPassword(_) => String::from_str("Failed to process the credential"),
            ApiError::Unauthenticated => String::from_str("Unauthorized"),
            ApiError::LoginError => String::from_str("Account or Password is incorrect"),
            ApiError::Internal(_) => String::from_str("Internal Server Error"),
        }
    }

    /// The envelope that renders this error.
    pub fn error_response(self) -> (r: ErrorResponse)
        ensures
            r.code == status_of(&self),
            r.error@ == message_of(&self),
            r.violations@ == (match self {
                ApiError::ValidationError(v) => v@,
                _ => Seq::empty(),
            }),
    {
        let code = self.status_code();
        let error = self.message();
        let violations = match self {
            ApiError::ValidationError(v) => v,
            _ => Vec::new(),
        };
        ErrorResponse { code, error, violations }
    }
}

} // verus!
