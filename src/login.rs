//! Login: a credential record found by account, the password checked against
//! it, and a session token for its principal. An unknown account and a wrong
//! password are rejected alike, and take alike long.
use vstd::prelude::*;

use crate::claims::{is_subject_part, Principal};
use crate::error::{ApiError, ApiResult};
use crate::params::LoginParams;
use crate::password::{hash_password_fast, verify_outcome, verify_password};
use crate::response::ApiResponse;
use crate::token::{issued_for, JwtService};

verus! {

/// What the record store holds for an account.
#[derive(Debug, Clone)]
pub struct CredentialRecord {
    pub id: String,
    pub name: String,
    pub password_hash: String,
}

/// The login decision: `Ok` only with a record whose stored hash accepts
/// the password.
pub open spec fn login_accepts(password: Seq<char>, record: Option<CredentialRecord>) -> bool {
    match record {
        Some(rec) => verify_outcome(password, rec.password_hash@) == Some(true),
        None => false,
    }
}

/// Login must succeed: the stored hash accepts the password, and the
/// record's id and name can stand in a token subject.
pub open spec fn login_owed(password: Seq<char>, record: Option<CredentialRecord>) -> bool {
    match record {
        Some(rec) => login_accepts(password, record) && is_subject_part(rec.id@)
            && is_subject_part(rec.name@),
        None => false,
    }
}

/// `resp` is a success envelope carrying a token that `jwt` issued for the
/// record's principal.
pub open spec fn issued_to(
    jwt: &JwtService,
    record: Option<CredentialRecord>,
    resp: ApiResponse<String>,
) -> bool {
    match (record, resp.data) {
        (Some(rec), Some(t)) => resp.code == 0 && resp.message@ == "success"@ && issued_for(
            jwt,
            rec.id@,
            rec.name@,
            t@,
        ),
        _ => false,
    }
}

/// Checks `params` against the record found for its account, if any, and
/// issues a token for the record's principal; that succeeds whenever the
/// stored hash accepts the password and the record's id and name can stand in
/// a token subject. When no record was found the
/// password is hashed all the same, so that both rejections take alike long.
pub fn login(jwt: &JwtService, params: &LoginParams, record: Option<CredentialRecord>) -> (r:
    ApiResult<ApiResponse<String>>)
    ensures
        !login_accepts(params.password@, record) ==> r matches Err(ApiError::LoginError),
        login_owed(params.password@, record) ==> (r matches Ok(resp) && issued_to(
            jwt,
            record,
            resp,
        )),
        r matches Ok(resp) ==> login_accepts(params.password@, record) && issued_to(
            jwt,
            record,
            resp,
        ),
        r matches Err(e) ==> e is LoginError || e is Internal,
{
    let rec = match record {
        Some(rec) => rec,
        None => {
            let _ = hash_password_fast(params.password.as_str());
            return Err(ApiError::LoginError);
        },
    };
    match verify_password(params.password.as_str(), rec.password_hash.as_str()) {
        Ok(true) => {},
        _ => return Err(ApiError::LoginError),
    }
    let principal = Principal { id: rec.id, name: rec.name };
    match jwt.encode(principal) {
        Ok(token) => Ok(ApiResponse::success(token)),
        Err(e) => Err(e),
    }
}

} // verus!
