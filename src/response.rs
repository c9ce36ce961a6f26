//! The success envelope `{code, message, data?}` and its transport status.
use vstd::prelude::*;

use vstd::string::StringExecFns;

verus! {

/// A response envelope: code 0 is success; 1 to 99 a client error, 100 to
/// 199 an authentication error, and anything else a server error.
#[derive(Debug)]
pub struct ApiResponse<T> {
    pub code: u16,
    pub message: String,
    pub data: Option<T>,
}

/// The transport status of an envelope code.
pub open spec fn http_status_of(code: u16) -> u16 {
    if code == 0 {
        200
    } else if code <= 99 {
        400
    } else if code <= 199 {
        401
    } else {
        500
    }
}

impl<T> ApiResponse<T> {
    /// A success envelope carrying `data`.
    pub fn success(data: T) -> (r: Self)
        ensures
            r.code == 0,
            r.message@ == "success"@,
            r.data == Some(data),
    {
        ApiResponse { code: 0, message: String::from_str("success"), data: Some(data) }
    }

    /// The transport status of this envelope.
    pub fn http_status(&self) -> (r: u16)
        ensures
            r == http_status_of(self.code),
    {
        if self.code == 0 {
            200
        } else if self.code <= 99 {
            400
        } else if self.code <= 199 {
            401
        } else {
            500
        }
    }
}

impl ApiResponse<()> {
    /// An error envelope with no data.
    pub fn error(code: u16, message: String) -> (r: Self)
        ensures
            r.code == code,
            r.message == message,
            r.data is None,
    {
        ApiResponse { code, message, data: None }
    }
}

} // verus!
