//! The guard in front of protected routes: a bearer token from the
//! `Authorization` header, checked by the token service, or a rejection that
//! never says which step failed.
use vstd::prelude::*;

use crate::claims::Principal;
use crate::error::{ApiError, ApiResult};
use crate::text::{chars_of, string_of_range};
use crate::token::JwtService;

verus! {

/// ASCII lower case of a character.
pub open spec fn ascii_lower(c: char) -> char {
    if 'A' <= c <= 'Z' {
        ((c as u32) + 32) as char
    } else {
        c
    }
}

pub open spec fn bearer_scheme() -> Seq<char> {
    seq!['b', 'e', 'a', 'r', 'e', 'r']
}

/// The header value names the `Bearer` scheme, in any case, followed by a
/// space.
pub open spec fn has_bearer_scheme(v: Seq<char>) -> bool {
    &&& v.len() > 6
    &&& v[6] == ' '
    &&& forall|i: int| 0 <= i < 6 ==> ascii_lower(#[trigger] v[i]) == bearer_scheme()[i]
}

/// `s` without its leading spaces and tabs.
pub open spec fn trim_start(s: Seq<char>) -> Seq<char>
    decreases s.len(),
{
    if s.len() > 0 && (s[0] == ' ' || s[0] == '\t') {
        trim_start(s.drop_first())
    } else {
        s
    }
}

/// The token that an `Authorization` header value carries.
pub open spec fn bearer_token_of(v: Seq<char>) -> Option<Seq<char>> {
    if has_bearer_scheme(v) {
        Some(trim_start(v.subrange(7, v.len() as int)))
    } else {
        None
    }
}

fn lower_ascii(c: char) -> (r: char)
    ensures
        r == ascii_lower(c),
{
    if 'A' <= c && c <= 'Z' {
        let b: u8 = ((c as u32) + 32) as u8;
        b as char
    } else {
        c
    }
}

/// The token of an `Authorization` header value of the `Bearer` scheme.
pub fn bearer_token(value: &str) -> (r: Option<String>)
    ensures
        match bearer_token_of(value@) {
            Some(t) => r matches Some(s) && s@ == t,
            None => r is None,
        },
{
    let cs = chars_of(value);
    let n = cs.len();
    if n <= 6 || cs[6] != ' ' {
        return None;
    }
    let scheme = vec!['b', 'e', 'a', 'r', 'e', 'r'];
    let mut i: usize = 0;
    while i < 6
        invariant
            cs@ == value@,
            n == cs.len(),
            n > 6,
            scheme@ == bearer_scheme(),
            0 <= i <= 6,
            forall|j: int| 0 <= j < i ==> ascii_lower(#[trigger] cs@[j]) == bearer_scheme()[j],
        decreases 6 - i,
    {
        if lower_ascii(cs[i]) != scheme[i] {
            return None;
        }
        i += 1;
    }
    let mut k: usize = 7;
    while k < n && (cs[k] == ' ' || cs[k] == '\t')
        invariant
            cs@ == value@,
            n == cs.len(),
            7 <= k <= n,
            trim_start(cs@.subrange(7, n as int)) == trim_start(cs@.subrange(k as int, n as int)),
        decreases n - k,
    {
        assert(cs@.subrange(k as int, n as int).drop_first() =~= cs@.subrange(k + 1, n as int));
        k += 1;
    }
    proof {
        if k < n {
            assert(cs@.subrange(k as int, n as int)[0] == cs@[k as int]);
        }
    }
    Some(string_of_range(&cs, k, n))
}

/// The guard of protected routes.
#[derive(Clone, Copy)]
pub struct AuthLayer;

impl AuthLayer {
    /// The principal that the `Authorization` header value names. A missing
    /// header, another scheme and every token failure are the same
    /// `Unauthenticated`.
    pub fn authorize(&self, jwt: &JwtService, authorization: Option<&str>) -> (r: ApiResult<
        Principal,
    >)
        ensures
            authorization is None ==> r matches Err(ApiError::Unauthenticated),
            (authorization matches Some(v) && bearer_token_of(v@) is None) ==> r matches Err(
                ApiError::Unauthenticated,
            ),
            r matches Err(e) ==> e is Unauthenticated,
            r matches Ok(p) ==> p.is_encodable(),
    {
        let value = match authorization {
            Some(v) => v,
            None => return Err(ApiError::Unauthenticated),
        };
        let token = match bearer_token(value) {
            Some(t) => t,
            None => return Err(ApiError::Unauthenticated),
        };
        jwt.decode(token.as_str())
    }
}

} // verus!
