//! Password credentials: Argon2id hashing with fixed, embedded cost
//! parameters, and verification against a stored PHC string.
use vstd::prelude::*;

use crate::error::{ApiError, ApiResult};
use crate::text::decimal;
use argon2::password_hash::rand_core::OsRng;
use argon2::password_hash::SaltString;
use argon2::{PasswordHasher, PasswordVerifier};

verus! {

/// Relies on password-hash's error type: carried through as it is.
#[verifier::external_type_specification]
#[verifier::external_body]
pub struct ExPasswordHashError(argon2::password_hash::Error);

/// Memory cost, in KiB.
pub const M_COST: u32 = 4096;
/// Number of passes.
pub const T_COST: u32 = 1;
/// Degree of parallelism.
pub const P_COST: u32 = 1;
/// Length of the digest, in bytes.
pub const OUTPUT_LEN: usize = 32;

/// Whether `PasswordHash::new` accepts `phc` as a PHC string.
pub uninterp spec fn phc_parses(phc: Seq<char>) -> bool;

/// Whether Argon2 verification, with no secret and with the algorithm,
/// version, parameters and salt that `phc` carries, accepts `password`.
pub uninterp spec fn argon2_accepts(password: Seq<char>, phc: Seq<char>) -> bool;

/// Whether argon2 accepts these cost parameters, as `Params::new` decides.
pub open spec fn params_accepted(m_cost: u32, t_cost: u32, p_cost: u32, output_len: usize) -> bool {
    &&& m_cost >= 8
    &&& m_cost >= p_cost * 8
    &&& t_cost >= 1
    &&& 1 <= p_cost
    &&& 4 <= output_len <= 0xFFFF_FFFF
}

/// The start of the PHC string of an Argon2id, version 19 hash with these
/// costs: `$argon2id$v=19$m={m},t={t},p={p}$`, which salt and digest follow.
pub open spec fn phc_prefix(m_cost: u32, t_cost: u32, p_cost: u32) -> Seq<char> {
    "$argon2id$v=19$m="@ + decimal(m_cost as nat) + ",t="@ + decimal(t_cost as nat) + ",p="@
        + decimal(p_cost as nat) + "$"@
}

pub open spec fn has_prefix(s: Seq<char>, prefix: Seq<char>) -> bool {
    prefix.len() <= s.len() && s.subrange(0, prefix.len() as int) == prefix
}

/// Relies on `argon2::Params::new` (its bounds are `params_accepted`), on
/// `SaltString::generate` with the operating system's random source (16
/// bytes; it panics only if that source fails), and on
/// `PasswordHasher::hash_password` of an Argon2id, version 19 context without
/// secret (`Argon2::new`), rendered as its PHC string. Hashing fails only on a
/// digest outside 10 to 64 bytes or a password over 2^32-1 bytes, which a
/// password of at most 2^30-1 characters is not. As the argon2 documentation
/// shows, the string parses and verification accepts the same password
/// against it. `p_cost` is bounded so that `p_cost * 8` cannot overflow.
#[verifier::external_body]
fn argon2id_hash(m_cost: u32, t_cost: u32, p_cost: u32, output_len: usize, password: &str) -> (r:
    Result<String, argon2::password_hash::Error>)
    requires
        p_cost <= 0xFF_FFFF,
    ensures
        r matches Ok(h) ==> phc_parses(h@) && argon2_accepts(password@, h@) && has_prefix(
            h@,
            phc_prefix(m_cost, t_cost, p_cost),
        ),
        params_accepted(m_cost, t_cost, p_cost, output_len) && 10 <= output_len <= 64
            && password@.len() <= 0x3FFF_FFFF ==> r is Ok,
{
    let params = argon2::Params::new(m_cost, t_cost, p_cost, Some(output_len))?;
    let salt = SaltString::generate(&mut OsRng);
    let context = argon2::Argon2::new(argon2::Algorithm::Argon2id, argon2::Version::V0x13, params);
    context.hash_password(password.as_bytes(), &salt).map(|h| h.to_string())
}

/// Relies on `PasswordHash::new` to parse `phc`, and on
/// `PasswordVerifier::verify_password` of `Argon2::default()`, which holds no
/// secret and takes algorithm, version, parameters and salt from the parsed
/// string.
#[verifier::external_body]
fn argon2_verify(password: &str, phc: &str) -> (r: Result<bool, argon2::password_hash::Error>)
    ensures
        r is Ok <==> phc_parses(phc@),
        r matches Ok(b) ==> b == argon2_accepts(password@, phc@),
{
    let hash = argon2::PasswordHash::new(phc)?;
    Ok(argon2::Argon2::default().verify_password(password.as_bytes(), &hash).is_ok())
}

/// `phc` is a stored credential that verification accepts for `password`.
pub open spec fn is_hash_of(password: Seq<char>, phc: Seq<char>) -> bool {
    phc_parses(phc) && argon2_accepts(password, phc)
}

/// What verification of `password` against `phc` answers: nothing when `phc`
/// does not parse.
pub open spec fn verify_outcome(password: Seq<char>, phc: Seq<char>) -> Option<bool> {
    if phc_parses(phc) {
        Some(argon2_accepts(password, phc))
    } else {
        None
    }
}

/// The fixed cost parameters are within argon2's bounds.
pub proof fn lemma_params_accepted()
    ensures
        params_accepted(M_COST, T_COST, P_COST, OUTPUT_LEN),
{
}

/// Hashes `password` with Argon2id and a fresh random salt. The PHC string
/// that comes back carries algorithm, version, costs and salt, and verifies
/// against the same password. Hashing succeeds for every password of at most
/// 2^30-1 characters.
pub fn hash_password_fast(password: &str) -> (r: ApiResult<String>)
    ensures
        r matches Ok(h) ==> is_hash_of(password@, h@) && has_prefix(
            h@,
            phc_prefix(M_COST, T_COST, P_COST),
        ),
        password@.len() <= 0x3FFF_FFFF ==> r is Ok,
        r matches Err(e) ==> e is HashPassword,
{
    proof {
        lemma_params_accepted();
    }
    match argon2id_hash(M_COST, T_COST, P_COST, OUTPUT_LEN, password) {
        Ok(h) => Ok(h),
        Err(e) => Err(ApiError::HashPassword(e.to_string())),
    }
}

/// Whether `password` matches the stored PHC string `hash`. A string that does
/// not parse is an error, never a match.
pub fn verify_password(password: &str, hash: &str) -> (r: ApiResult<bool>)
    ensures
        match verify_outcome(password@, hash@) {
            Some(b) => r matches Ok(x) && x == b,
            None => r matches Err(ApiError::HashPassword(_)),
        },
{
    match argon2_verify(password, hash) {
        Ok(b) => Ok(b),
        Err(e) => Err(ApiError::HashPassword(e.to_string())),
    }
}

/// A stored credential produced by hashing a password verifies against that
/// password.
pub proof fn lemma_verify_hashed(password: Seq<char>, phc: Seq<char>)
    requires
        is_hash_of(password, phc),
    ensures
        verify_outcome(password, phc) == Some(true),
{
}

} // verus!
