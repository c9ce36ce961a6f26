use request_guard::claims::{Claims, Principal};
use request_guard::config::{HmacAlgorithm, JwtConfig};
use request_guard::error::ApiError;
use request_guard::token::JwtService;

fn principal(id: &str, name: &str) -> Principal {
    Principal { id: id.to_string(), name: name.to_string() }
}

fn config(secret: &str, expiration: u64, leeway: u64) -> JwtConfig {
    JwtConfig {
        secret: Some(secret.to_string()),
        algorithm: None,
        expiration: Some(expiration),
        leeway: Some(leeway),
    }
}

#[test]
fn subject_joins_id_and_name() {
    assert_eq!(principal("42", "alice").subject(), "42:alice");
}

#[test]
fn subject_splits_in_one_place() {
    let p = Principal::from_subject("42:alice").unwrap();
    assert_eq!(p.id, "42");
    assert_eq!(p.name, "alice");
}

#[test]
fn subject_without_separator_is_refused() {
    assert!(Principal::from_subject("42alice").is_none());
    assert!(Principal::from_subject("").is_none());
}

#[test]
fn subject_with_two_separators_is_refused() {
    assert!(Principal::from_subject("42:alice:x").is_none());
}

#[test]
fn subject_with_empty_part_is_refused() {
    assert!(Principal::from_subject(":alice").is_none());
    assert!(Principal::from_subject("42:").is_none());
    assert!(Principal::from_subject(":").is_none());
}

#[test]
fn claims_payload_text() {
    let c = Claims { sub: "7:bob".to_string(), exp: 3610, iat: 10 };
    assert_eq!(c.to_json(), "{\"sub\":\"7:bob\",\"exp\":3610,\"iat\":10}");
}

#[test]
fn claims_payload_escapes_quotes_and_controls() {
    let c = Claims { sub: "a\"b\\c\nd".to_string(), exp: 0, iat: 0 };
    let text = c.to_json();
    assert_eq!(text, "{\"sub\":\"a\\u0022b\\u005cc\\u000ad\",\"exp\":0,\"iat\":0}");
    let back = Claims::from_json(&text).unwrap();
    assert_eq!(back.sub, "a\"b\\c\nd");
}

#[test]
fn claims_payload_round_trip() {
    let c = Claims { sub: "\u{4e2d}:\u{6587}".to_string(), exp: u64::MAX, iat: 123456789 };
    let back = Claims::from_json(&c.to_json()).unwrap();
    assert_eq!(back.sub, c.sub);
    assert_eq!(back.exp, u64::MAX);
    assert_eq!(back.iat, 123456789);
}

#[test]
fn claims_payload_of_other_shape_is_refused() {
    assert!(Claims::from_json("{\"exp\":1,\"iat\":1,\"sub\":\"a:b\"}").is_none());
    assert!(Claims::from_json("{\"sub\":\"a:b\",\"exp\":1,\"iat\":1} ").is_none());
    assert!(Claims::from_json("{\"sub\":\"a:b\",\"exp\":,\"iat\":1}").is_none());
    assert!(Claims::from_json("{\"sub\":\"a:b\",\"exp\":18446744073709551616,\"iat\":1}").is_none());
    assert!(Claims::from_json("").is_none());
}

#[test]
fn payload_with_exp_before_iat_is_refused() {
    let r = JwtService::principal_from_payload("{\"sub\":\"1:a\",\"exp\":5,\"iat\":6}");
    assert!(matches!(r, Err(ApiError::Unauthenticated)));
}

#[test]
fn payload_names_its_principal() {
    let p = JwtService::principal_from_payload("{\"sub\":\"1:a\",\"exp\":6,\"iat\":6}").unwrap();
    assert_eq!(p.id, "1");
    assert_eq!(p.name, "a");
}

#[test]
fn claims_expire_after_ttl_and_saturate() {
    let svc = JwtService::new(&config("k", 3600, 60));
    let c = svc.claims_for(&principal("1", "a"), 100).ok().unwrap();
    assert_eq!(c.sub, "1:a");
    assert_eq!(c.iat, 100);
    assert_eq!(c.exp, 3700);
    let c = svc.claims_for(&principal("1", "a"), u64::MAX - 5).ok().unwrap();
    assert_eq!(c.exp, u64::MAX);
}

#[test]
fn decode_of_encode_is_identity() {
    let svc = JwtService::new(&config("secret", 3600, 60));
    let token = svc.encode(principal("u-1", "Alice Smith")).ok().unwrap();
    assert!(!token.is_empty());
    let p = svc.decode(&token).ok().unwrap();
    assert_eq!(p.id, "u-1");
    assert_eq!(p.name, "Alice Smith");
}

#[test]
fn encode_refuses_separator_in_principal() {
    let svc = JwtService::new(&config("secret", 3600, 60));
    assert!(matches!(svc.encode(principal("a:b", "c")), Err(ApiError::Internal(_))));
    assert!(matches!(svc.encode(principal("a", "")), Err(ApiError::Internal(_))));
}

#[test]
fn tampered_token_is_unauthenticated() {
    let svc = JwtService::new(&config("secret", 3600, 60));
    let token = svc.encode(principal("1", "a")).ok().unwrap();
    let mut chars: Vec<char> = token.chars().collect();
    let last = chars.len() - 1;
    chars[last] = if chars[last] == 'A' { 'B' } else { 'A' };
    let altered: String = chars.into_iter().collect();
    assert!(matches!(svc.decode(&altered), Err(ApiError::Unauthenticated)));
    assert!(matches!(svc.decode("not a token"), Err(ApiError::Unauthenticated)));
}

#[test]
fn token_of_other_key_is_unauthenticated() {
    let issuer = JwtService::new(&config("one key", 3600, 60));
    let other = JwtService::new(&config("another key", 3600, 60));
    let token = issuer.encode(principal("1", "a")).ok().unwrap();
    assert!(matches!(other.decode(&token), Err(ApiError::Unauthenticated)));
}

#[test]
fn expired_token_is_unauthenticated() {
    let svc = JwtService::new(&config("secret", 0, 0));
    let token = svc.encode(principal("1", "a")).ok().unwrap();
    let start = std::time::Instant::now();
    while start.elapsed() < std::time::Duration::from_millis(2100) {}
    assert!(matches!(svc.decode(&token), Err(ApiError::Unauthenticated)));
}

#[test]
fn decode_of_encode_keeps_unusual_characters() {
    let svc = JwtService::new(&config("secret", 3600, 60));
    let name = "Zo\u{eb} \"Z\" \\ \u{4e2d}\t\u{1f600}";
    let token = svc.encode(principal("id/\u{1}", name)).ok().unwrap();
    let p = svc.decode(&token).ok().unwrap();
    assert_eq!(p.id, "id/\u{1}");
    assert_eq!(p.name, name);
}

#[test]
fn encode_at_one_time_gives_one_token() {
    let svc = JwtService::new(&config("secret", 3600, 60));
    let a = svc.encode_at(&principal("1", "a"), 1_700_000_000).ok().unwrap();
    let b = svc.encode_at(&principal("1", "a"), 1_700_000_000).ok().unwrap();
    assert_eq!(a, b);
    let c = svc.encode_at(&principal("1", "a"), 1_700_000_001).ok().unwrap();
    assert_ne!(a, c);
    assert_eq!(a.split('.').count(), 3);
}

#[test]
fn encode_with_longest_lifetime_saturates() {
    let svc = JwtService::new(&config("secret", u64::MAX, 60));
    let token = svc.encode(principal("1", "a")).ok().unwrap();
    let p = svc.decode(&token).ok().unwrap();
    assert_eq!(p.id, "1");
}

#[test]
fn algorithms_sign_differently_and_check_alike() {
    let mut c = config("secret", 3600, 60);
    c.algorithm = Some(HmacAlgorithm::HS512);
    let svc512 = JwtService::new(&c);
    let svc256 = JwtService::new(&config("secret", 3600, 60));
    let t512 = svc512.encode_at(&principal("1", "a"), 1_700_000_000).ok().unwrap();
    let t256 = svc256.encode_at(&principal("1", "a"), 1_700_000_000).ok().unwrap();
    assert_ne!(t512, t256);
    let now_token = svc512.encode(principal("1", "a")).ok().unwrap();
    assert_eq!(svc512.decode(&now_token).ok().unwrap().name, "a");
    assert!(matches!(svc256.decode(&now_token), Err(ApiError::Unauthenticated)));
}
