//! Request extraction in two strict stages: the structural parse of a path,
//! a query string or a body, then the field rules of the parsed value. A
//! value that failed to parse is never validated, and each failure has its
//! own error.
use vstd::prelude::*;

use crate::error::ApiError;
use crate::validation::{views, Validate};

verus! {

/// Where a value is extracted from.
#[derive(Debug, Clone, Copy, PartialEq, Eq, Structural)]
pub enum Source {
    PathSegments,
    QueryString,
    Body,
}

/// `e` is the error for a structural failure at `source` with the parser's
/// `message`.
pub open spec fn is_rejection(source: Source, message: Seq<char>, e: ApiError) -> bool {
    match source {
        Source::PathSegments => e matches ApiError::InvalidPathParams(m) && m@ == message,
        Source::QueryString => e matches ApiError::InvalidQueryParams(m) && m@ == message,
        Source::Body => e matches ApiError::InvalidJsonBody(m) && m@ == message,
    }
}

/// The outcome of the validation stage on a parsed value.
pub open spec fn validated<T: Validate>(value: T, r: Result<T, ApiError>) -> bool {
    if value.violations_spec().len() == 0 {
        r == Ok::<T, ApiError>(value)
    } else {
        r matches Err(ApiError::ValidationError(vs)) && views(vs@) == value.violations_spec()
    }
}

/// The outcome of both stages on what the parser gave.
pub open spec fn extracted<T: Validate>(
    source: Source,
    parsed: Result<T, String>,
    r: Result<T, ApiError>,
) -> bool {
    match parsed {
        Err(m) => r matches Err(e) && is_rejection(source, m@, e),
        Ok(v) => validated(v, r),
    }
}

/// The error for a structural failure at `source`.
pub fn reject(source: Source, message: String) -> (r: ApiError)
    ensures
        is_rejection(source, message@, r),
{
    match source {
        Source::PathSegments => ApiError::InvalidPathParams(message),
        Source::QueryString => ApiError::InvalidQueryParams(message),
        Source::Body => ApiError::InvalidJsonBody(message),
    }
}

/// The validation stage: the value when it breaks no rule, else every
/// violation.
pub fn check_valid<T: Validate>(value: T) -> (r: Result<T, ApiError>)
    ensures
        validated(value, r),
{
    let vs = value.validate();
    if vs.len() == 0 {
        Ok(value)
    } else {
        Err(ApiError::ValidationError(vs))
    }
}

/// Both stages in order: a parse failure is rejected as such and the value is
/// then not validated.
pub fn extract_valid<T: Validate>(source: Source, parsed: Result<T, String>) -> (r: Result<
    T,
    ApiError,
>)
    ensures
        extracted(source, parsed, r),
{
    match parsed {
        Err(m) => Err(reject(source, m)),
        Ok(v) => check_valid(v),
    }
}

/// A value parsed from path segments.
#[derive(Debug)]
pub struct Path<T>(pub T);

/// A value parsed from the query string.
#[derive(Debug, Clone, Copy, Default)]
pub struct Query<T>(pub T);

/// A value parsed from the body.
#[derive(Debug, Clone, Copy, Default)]
pub struct Json<T>(pub T);

/// A value that breaks none of its rules.
#[derive(Debug, Clone, Copy, Default)]
pub struct Valid<T>(pub T);

/// A value parsed from path segments that breaks none of its rules.
#[derive(Debug)]
pub struct ValidPath<T>(pub T);

/// A value parsed from the query string that breaks none of its rules.
#[derive(Debug, Clone, Copy, Default)]
pub struct ValidQuery<T>(pub T);

/// A value parsed from the body that breaks none of its rules.
#[derive(Debug, Clone, Copy, Default)]
pub struct ValidJson<T>(pub T);

impl<T> Path<T> {
    pub fn from_parsed(parsed: Result<T, String>) -> (r: Result<Path<T>, ApiError>)
        ensures
            match parsed {
                Ok(v) => r == Ok::<Path<T>, ApiError>(Path(v)),
                Err(m) => r matches Err(e) && is_rejection(Source::PathSegments, m@, e),
            },
    {
        match parsed {
            Ok(v) => Ok(Path(v)),
            Err(m) => Err(reject(Source::PathSegments, m)),
        }
    }
}

impl<T> Query<T> {
    pub fn from_parsed(parsed: Result<T, String>) -> (r: Result<Query<T>, ApiError>)
        ensures
            match parsed {
                Ok(v) => r == Ok::<Query<T>, ApiError>(Query(v)),
                Err(m) => r matches Err(e) && is_rejection(Source::QueryString, m@, e),
            },
    {
        match parsed {
            Ok(v) => Ok(Query(v)),
            Err(m) => Err(reject(Source::QueryString, m)),
        }
    }
}

impl<T> Json<T> {
    pub fn from_parsed(parsed: Result<T, String>) -> (r: Result<Json<T>, ApiError>)
        ensures
            match parsed {
                Ok(v) => r == Ok::<Json<T>, ApiError>(Json(v)),
                Err(m) => r matches Err(e) && is_rejection(Source::Body, m@, e),
            },
    {
        match parsed {
            Ok(v) => Ok(Json(v)),
            Err(m) => Err(reject(Source::Body, m)),
        }
    }
}

impl<T: Validate> Valid<T> {
    pub fn new(value: T) -> (r: Result<Valid<T>, ApiError>)
        ensures
            if value.violations_spec().len() == 0 {
                r == Ok::<Valid<T>, ApiError>(Valid(value))
            } else {
                r matches Err(ApiError::ValidationError(vs)) && views(vs@) == value.violations_spec()
            },
    {
        match check_valid(value) {
            Ok(v) => Ok(Valid(v)),
            Err(e) => Err(e),
        }
    }
}

impl<T: Validate> ValidPath<T> {
    pub fn from_parsed(parsed: Result<T, String>) -> (r: Result<ValidPath<T>, ApiError>)
        ensures
            match parsed {
                Ok(v) => if v.violations_spec().len() == 0 {
                    r == Ok::<ValidPath<T>, ApiError>(ValidPath(v))
                } else {
                    r matches Err(ApiError::ValidationError(vs)) && views(vs@) == v.violations_spec()
                },
                Err(m) => r matches Err(e) && is_rejection(Source::PathSegments, m@, e),
            },
    {
        match extract_valid(Source::PathSegments, parsed) {
            Ok(v) => Ok(ValidPath(v)),
            Err(e) => Err(e),
        }
    }
}

impl<T: Validate> ValidQuery<T> {
    pub fn from_parsed(parsed: Result<T, String>) -> (r: Result<ValidQuery<T>, ApiError>)
        ensures
            match parsed {
                Ok(v) => if v.violations_spec().len() == 0 {
                    r == Ok::<ValidQuery<T>, ApiError>(ValidQuery(v))
                } else {
                    r matches Err(ApiError::ValidationError(vs)) && views(vs@) == v.violations_spec()
                },
                Err(m) => r matches Err(e) && is_rejection(Source::QueryString, m@, e),
            },
    {
        match extract_valid(Source::QueryString, parsed) {
            Ok(v) => Ok(ValidQuery(v)),
            Err(e) => Err(e),
        }
    }
}

impl<T: Validate> ValidJson<T> {
    pub fn from_parsed(parsed: Result<T, String>) -> (r: Result<ValidJson<T>, ApiError>)
        ensures
            match parsed {
                Ok(v) => if v.violations_spec().len() == 0 {
                    r == Ok::<ValidJson<T>, ApiError>(ValidJson(v))
                } else {
                    r matches Err(ApiError::ValidationError(vs)) && views(vs@) == v.violations_spec()
                },
                Err(m) => r matches Err(e) && is_rejection(Source::Body, m@, e),
            },
    {
        match extract_valid(Source::Body, parsed) {
            Ok(v) => Ok(ValidJson(v)),
            Err(e) => Err(e),
        }
    }
}

} // verus!
