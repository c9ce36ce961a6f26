//! Issuing and checking signed, time-bounded bearer tokens. The payload text
//! is written and read by this crate; signing, the signature check and the
//! expiry check against the clock are jsonwebtoken's.
use vstd::prelude::*;

use crate::claims::{
    claims_json, lemma_claims_round_trip, lemma_subject_round_trip, parse_claims, subject_of,
    subject_parts, Claims, Principal,
};
use crate::config::{HmacAlgorithm, JwtConfig, MAX_JWT_LEEWAY};
use crate::error::{ApiError, ApiResult};
use jsonwebtoken::{Algorithm, DecodingKey, EncodingKey, Header, Validation};
use serde_json::value::RawValue;
use vstd::slice::slice_to_vec;
use vstd::string::StringExecFns;
use vstd::utf8::encode_utf8;

verus! {

/// Relies on jsonwebtoken's error type: carried through as it is.
#[verifier::external_type_specification]
#[verifier::external_body]
pub struct ExJwtError(jsonwebtoken::errors::Error);

/// Relies on `jsonwebtoken::get_current_timestamp`: the seconds since the
/// epoch, read from the system clock. Nothing is known of the value; it
/// panics only on a clock set before the epoch.
pub assume_specification[ jsonwebtoken::get_current_timestamp ]() -> u64;

/// The token that `jsonwebtoken::encode` gives for the payload text `payload`
/// under the header `Header::new(alg)`, signed with the HMAC key `secret`.
pub uninterp spec fn signed_token(alg: HmacAlgorithm, secret: Seq<u8>, payload: Seq<char>) -> Seq<
    char,
>;

/// `t` is the payload text of some claims.
pub open spec fn is_claims_payload(t: Seq<char>) -> bool {
    exists|sub: Seq<char>, exp: nat, iat: nat|
        exp <= u64::MAX && iat <= u64::MAX && t == #[trigger] claims_json(sub, exp, iat)
}

/// Relies on `serde_json::value::RawValue::from_string`, which keeps a valid
/// JSON text as it is, and on `jsonwebtoken::encode` with `Header::new(alg)` and
/// `EncodingKey::from_secret(secret)`. An HMAC key fits every HMAC algorithm
/// and HMAC signing cannot fail, so a payload that is valid JSON, as every
/// claims text is, is signed; the token depends on the arguments alone.
#[verifier::external_body]
fn jwt_encode(alg: HmacAlgorithm, secret: &[u8], payload: String) -> (r: Result<
    String,
    jsonwebtoken::errors::Error,
>)
    ensures
        r matches Ok(t) ==> t@ == signed_token(alg, secret@, payload@),
        is_claims_payload(payload@) ==> r is Ok,
{
    let algorithm = match alg {
        HmacAlgorithm::HS256 => Algorithm::HS256,
        HmacAlgorithm::HS384 => Algorithm::HS384,
        HmacAlgorithm::HS512 => Algorithm::HS512,
    };
    let raw = RawValue::from_string(payload)?;
    jsonwebtoken::encode(&Header::new(algorithm), &raw, &EncodingKey::from_secret(secret))
}

/// Relies on `jsonwebtoken::decode`, read into a `serde_json` raw value, with
/// `DecodingKey::from_secret(secret)` and `Validation::new(alg)` requiring the
/// claims `required` and allowing `leeway` seconds past `exp`: checks the
/// signature of `token` and its claims against the clock, and hands back the
/// payload text as it was signed. It subtracts the leeway from the clock, so
/// the leeway stays far below any present time.
#[verifier::external_body]
fn jwt_decode(
    token: &str,
    alg: HmacAlgorithm,
    secret: &[u8],
    leeway: u64,
    required: &[String],
) -> Result<String, jsonwebtoken::errors::Error>
    requires
        leeway <= MAX_JWT_LEEWAY,
{
    let algorithm = match alg {
        HmacAlgorithm::HS256 => Algorithm::HS256,
        HmacAlgorithm::HS384 => Algorithm::HS384,
        HmacAlgorithm::HS512 => Algorithm::HS512,
    };
    let mut validation = Validation::new(algorithm);
    validation.set_required_spec_claims(required);
    validation.leeway = leeway;
    let key = DecodingKey::from_secret(secret);
    jsonwebtoken::decode::<Box<RawValue>>(token, &key, &validation).map(|d| d.claims.get().to_owned())
}

/// The identity that a payload text names: its claims read back, `exp` not
/// before `iat`, and a subject that splits into id and name.
pub open spec fn payload_identity(t: Seq<char>) -> Option<(Seq<char>, Seq<char>)> {
    match parse_claims(t) {
        Some((sub, exp, iat)) => if exp >= iat {
            subject_parts(sub)
        } else {
            None
        },
        None => None,
    }
}

/// Expiry of a token issued at `now` that lives `ttl` seconds, saturating.
pub open spec fn expiry(now: u64, ttl: u64) -> u64 {
    if now + ttl > u64::MAX {
        u64::MAX
    } else {
        (now + ttl) as u64
    }
}

/// The claims that a token must carry.
pub open spec fn required_claim_names() -> Seq<Seq<char>> {
    seq!["sub"@, "exp"@, "iat"@]
}

/// Issues and checks session tokens. Its key material, algorithm, lifetime
/// and grace window are fixed once it is built.
pub struct JwtService {
    secret: Vec<u8>,
    algorithm: HmacAlgorithm,
    required: Vec<String>,
    leeway: u64,
    expiration: u64,
}

/// `t` is a token for the identity `(id, name)` that `jwt` issues at some
/// time: signed with its algorithm and secret, over claims with subject
/// `"{id}:{name}"`, issued then and expiring its lifetime later.
pub open spec fn issued_for(jwt: &JwtService, id: Seq<char>, name: Seq<char>, t: Seq<char>) -> bool {
    exists|now: u64|
        t == #[trigger] signed_token(
            jwt.algorithm_spec(),
            jwt.secret_key(),
            claims_json(subject_of(id, name), expiry(now, jwt.ttl()) as nat, now as nat),
        )
}

impl JwtService {
    /// The lifetime of the tokens issued, in seconds.
    pub closed spec fn ttl(&self) -> u64 {
        self.expiration
    }

    /// The HMAC key, the same for signing and checking.
    pub closed spec fn secret_key(&self) -> Seq<u8> {
        self.secret@
    }

    pub closed spec fn algorithm_spec(&self) -> HmacAlgorithm {
        self.algorithm
    }

    /// The grace window after `exp`, in seconds.
    pub closed spec fn leeway_spec(&self) -> u64 {
        self.leeway
    }

    /// The claims that a token must carry to be accepted.
    pub closed spec fn required_claims(&self) -> Seq<Seq<char>> {
        self.required@.map_values(|c: String| c@)
    }

    /// A service that signs and checks with the configured secret and
    /// algorithm, requires `sub`, `exp` and `iat`, allows the configured grace
    /// window, and issues tokens that live the configured lifetime.
    pub fn new(config: &JwtConfig) -> (r: JwtService)
        ensures
            r.ttl() == config.expiration_spec(),
            r.algorithm_spec() == config.algorithm_spec(),
            r.secret_key() == encode_utf8(config.secret_spec()),
            r.leeway_spec() == config.leeway_spec(),
            r.required_claims() == required_claim_names(),
    {
        let mut required: Vec<String> = Vec::new();
        required.push(String::from_str("sub"));
        required.push(String::from_str("exp"));
        required.push(String::from_str("iat"));
        assert(required@.map_values(|c: String| c@) =~= required_claim_names());
        JwtService {
            secret: slice_to_vec(config.secret().as_bytes()),
            algorithm: config.algorithm(),
            required,
            leeway: config.leeway(),
            expiration: config.expiration(),
        }
    }

    /// The claims of a token for `principal` issued at `now`. Refused, as an
    /// internal failure, when the id or the name is empty or holds the
    /// separator, for then the subject would not split back.
    pub fn claims_for(&self, principal: &Principal, now: u64) -> (r: ApiResult<Claims>)
        ensures
            !principal.is_encodable() ==> r matches Err(ApiError::Internal(_)),
            principal.is_encodable() ==> (r matches Ok(c) && c.sub@ == subject_of(
                principal.id@,
                principal.name@,
            ) && c.iat == now && c.exp == expiry(now, self.ttl())),
            r matches Ok(c) ==> c.is_consistent(),
    {
        if !principal.encodable() {
            return Err(
                ApiError::Internal(
                    String::from_str("principal id or name cannot stand in a token subject"),
                ),
            );
        }
        Ok(Claims { sub: principal.subject(), exp: now.saturating_add(self.expiration), iat: now })
    }

    /// The signed token for `principal` issued at `now`: its claims' payload
    /// text signed with the service's algorithm and secret. Refused when the
    /// principal cannot be encoded.
    pub fn encode_at(&self, principal: &Principal, now: u64) -> (r: ApiResult<String>)
        ensures
            !principal.is_encodable() ==> r matches Err(ApiError::Internal(_)),
            principal.is_encodable() ==> (r matches Ok(t) && t@ == signed_token(
                self.algorithm_spec(),
                self.secret_key(),
                claims_json(
                    subject_of(principal.id@, principal.name@),
                    expiry(now, self.ttl()) as nat,
                    now as nat,
                ),
            )),
    {
        let claims = match self.claims_for(principal, now) {
            Ok(c) => c,
            Err(e) => return Err(e),
        };
        let payload = claims.to_json();
        assert(is_claims_payload(payload@)) by {
            assert(payload@ == claims_json(claims.sub@, claims.exp as nat, claims.iat as nat));
        }
        match jwt_encode(self.algorithm, self.secret.as_slice(), payload) {
            Ok(token) => Ok(token),
            Err(e) => Err(ApiError::Internal(e.to_string())),
        }
    }

    /// A signed token for `principal`, issued now and valid for the configured
    /// lifetime. Refused when the principal cannot be encoded.
    pub fn encode(&self, principal: Principal) -> (r: ApiResult<String>)
        ensures
            !principal.is_encodable() ==> r matches Err(ApiError::Internal(_)),
            principal.is_encodable() ==> (r matches Ok(t) && issued_for(
                self,
                principal.id@,
                principal.name@,
                t@,
            )),
    {
        let now = jsonwebtoken::get_current_timestamp();
        let r = self.encode_at(&principal, now);
        proof {
            if principal.is_encodable() {
                let t = r->Ok_0;
                assert(t@ == signed_token(
                    self.algorithm_spec(),
                    self.secret_key(),
                    claims_json(
                        subject_of(principal.id@, principal.name@),
                        expiry(now, self.ttl()) as nat,
                        now as nat,
                    ),
                ));
            }
        }
        r
    }

    /// The principal named by a payload text that passed the signature and
    /// expiry checks; `Unauthenticated` when the text does not read back as
    /// claims, `exp` is before `iat`, or the subject does not split.
    pub fn principal_from_payload(payload: &str) -> (r: ApiResult<Principal>)
        ensures
            match payload_identity(payload@) {
                Some((id, name)) => r matches Ok(p) && p.id@ == id && p.name@ == name,
                None => r matches Err(ApiError::Unauthenticated),
            },
    {
        let claims = match Claims::from_json(payload) {
            Some(c) => c,
            None => return Err(ApiError::Unauthenticated),
        };
        if claims.exp < claims.iat {
            return Err(ApiError::Unauthenticated);
        }
        match Principal::from_subject(claims.sub.as_str()) {
            Some(p) => Ok(p),
            None => Err(ApiError::Unauthenticated),
        }
    }

    /// The principal that `token` names. Every failure, whether of the
    /// signature, of expiry or of the claims, is the same `Unauthenticated`.
    pub fn decode(&self, token: &str) -> (r: ApiResult<Principal>)
        ensures
            r matches Ok(p) ==> p.is_encodable(),
            r matches Err(e) ==> e is Unauthenticated,
    {
        let payload = match jwt_decode(
            token,
            self.algorithm,
            self.secret.as_slice(),
            if self.leeway <= MAX_JWT_LEEWAY {
                self.leeway
            } else {
                MAX_JWT_LEEWAY
            },
            self.required.as_slice(),
        ) {
            Ok(p) => p,
            Err(_) => return Err(ApiError::Unauthenticated),
        };
        let r = Self::principal_from_payload(payload.as_str());
        proof {
            if r is Ok {
                let p = r->Ok_0;
                let s = parse_claims(payload@).unwrap().0;
                let k = choose|k: int| crate::claims::splits_at(s, k);
                assert(s.subrange(0, k) == p.id@);
            }
        }
        r
    }
}

/// Reading back the payload of a token issued for an encodable principal
/// names that same principal, whatever the time of issue and the lifetime.
pub proof fn lemma_decode_encode(principal: Principal, now: u64, ttl: u64)
    requires
        principal.is_encodable(),
    ensures
        payload_identity(
            claims_json(subject_of(principal.id@, principal.name@), expiry(now, ttl) as nat, now as nat),
        ) == Some((principal.id@, principal.name@)),
{
    let sub = subject_of(principal.id@, principal.name@);
    lemma_claims_round_trip(sub, expiry(now, ttl) as nat, now as nat);
    lemma_subject_round_trip(principal.id@, principal.name@);
}

} // verus!
