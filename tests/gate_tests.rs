use request_guard::claims::Principal;
use request_guard::config::JwtConfig;
use request_guard::error::{ApiError, ErrorResponse};
use request_guard::login::{login, CredentialRecord};
use request_guard::middleware::{bearer_token, AuthLayer};
use request_guard::params::LoginParams;
use request_guard::password::hash_password_fast;
use request_guard::response::ApiResponse;
use request_guard::token::JwtService;
use request_guard::validation::Violation;

fn service(expiration: u64, leeway: u64) -> JwtService {
    JwtService::new(&JwtConfig {
        secret: Some("test secret".to_string()),
        algorithm: None,
        expiration: Some(expiration),
        leeway: Some(leeway),
    })
}

fn params(account: &str, password: &str) -> LoginParams {
    LoginParams { account: account.to_string(), password: password.to_string() }
}

fn record(password: &str) -> CredentialRecord {
    CredentialRecord {
        id: "1".to_string(),
        name: "alice".to_string(),
        password_hash: hash_password_fast(password).unwrap(),
    }
}

fn status_and_message(e: ApiError) -> (u16, String, usize) {
    let r: ErrorResponse = e.error_response();
    (r.code, r.error, r.violations.len())
}

#[test]
fn bearer_token_of_header_value() {
    assert_eq!(bearer_token("Bearer abc").unwrap(), "abc");
    assert_eq!(bearer_token("bearer abc").unwrap(), "abc");
    assert_eq!(bearer_token("BEARER   abc").unwrap(), "abc");
    assert_eq!(bearer_token("Bearer ").unwrap(), "");
    assert!(bearer_token("Bearer").is_none());
    assert!(bearer_token("Basic abc").is_none());
    assert!(bearer_token("Bearerabc").is_none());
}

#[test]
fn request_without_header_is_rejected() {
    let jwt = service(3600, 60);
    assert!(matches!(AuthLayer.authorize(&jwt, None), Err(ApiError::Unauthenticated)));
    assert!(matches!(AuthLayer.authorize(&jwt, Some("Basic abc")), Err(ApiError::Unauthenticated)));
}

#[test]
fn request_with_valid_token_names_its_principal() {
    let jwt = service(3600, 60);
    let token = jwt.encode(Principal { id: "7".to_string(), name: "bob".to_string() }).unwrap();
    let header = format!("Bearer {}", token);
    let p = AuthLayer.authorize(&jwt, Some(&header)).unwrap();
    assert_eq!(p.id, "7");
    assert_eq!(p.name, "bob");
}

#[test]
fn login_scenario() {
    let jwt = service(3600, 60);

    let missing = login(&jwt, &params("alice", "secret1"), None).unwrap_err();
    let missing = status_and_message(missing);
    assert_eq!(missing, (401, "Account or Password is incorrect".to_string(), 0));

    let wrong = login(&jwt, &params("alice", "secret1"), Some(record("other password"))).unwrap_err();
    assert_eq!(status_and_message(wrong), missing);

    let ok = login(&jwt, &params("alice", "secret1"), Some(record("secret1"))).unwrap();
    assert_eq!(ok.code, 0);
    assert_eq!(ok.http_status(), 200);
    let token = ok.data.unwrap();
    assert!(!token.is_empty());

    let header = format!("Bearer {}", token);
    let p = AuthLayer.authorize(&jwt, Some(&header)).unwrap();
    assert_eq!(p.id, "1");
    assert_eq!(p.name, "alice");

    let mut chars: Vec<char> = header.chars().collect();
    let last = chars.len() - 1;
    chars[last] = if chars[last] == 'x' { 'y' } else { 'x' };
    let altered: String = chars.into_iter().collect();
    let e = AuthLayer.authorize(&jwt, Some(&altered)).unwrap_err();
    assert_eq!(e.status_code(), 401);
}

#[test]
fn login_token_expires() {
    let jwt = service(0, 0);
    let ok = login(&jwt, &params("alice", "secret1"), Some(record("secret1"))).unwrap();
    let header = format!("Bearer {}", ok.data.unwrap());
    let start = std::time::Instant::now();
    while start.elapsed() < std::time::Duration::from_millis(2100) {}
    let e = AuthLayer.authorize(&jwt, Some(&header)).unwrap_err();
    assert_eq!(e.status_code(), 401);
}

#[test]
fn login_with_malformed_stored_hash_is_rejected_alike() {
    let jwt = service(3600, 60);
    let rec = CredentialRecord {
        id: "1".to_string(),
        name: "alice".to_string(),
        password_hash: "not a hash".to_string(),
    };
    assert!(matches!(login(&jwt, &params("alice", "secret1"), Some(rec)), Err(ApiError::LoginError)));
}

#[test]
fn status_codes_of_errors() {
    assert_eq!(ApiError::NotFound.status_code(), 404);
    assert_eq!(ApiError::MethodNotAllowed.status_code(), 405);
    assert_eq!(ApiError::InvalidPathParams("x".to_string()).status_code(), 400);
    assert_eq!(ApiError::InvalidQueryParams("x".to_string()).status_code(), 400);
    assert_eq!(ApiError::InvalidJsonBody("x".to_string()).status_code(), 400);
    assert_eq!(ApiError::ValidationError(Vec::new()).status_code(), 422);
    assert_eq!(ApiError::Unauthenticated.status_code(), 401);
    assert_eq!(ApiError::LoginError.status_code(), 401);
    assert_eq!(ApiError::HashPassword("x".to_string()).status_code(), 401);
    assert_eq!(ApiError::Internal("x".to_string()).status_code(), 500);
}

#[test]
fn messages_keep_causes_out() {
    assert_eq!(ApiError::NotFound.message(), "Not Found");
    assert_eq!(ApiError::MethodNotAllowed.message(), "Method Not Allowed");
    assert_eq!(ApiError::InvalidJsonBody("eof".to_string()).message(), "Invalid json body: eof");
    assert_eq!(ApiError::InvalidQueryParams("q".to_string()).message(), "Invalid query parameters: q");
    assert_eq!(ApiError::InvalidPathParams("p".to_string()).message(), "Invalid path parameters: p");
    assert_eq!(ApiError::Internal("db down".to_string()).message(), "Internal Server Error");
    assert_eq!(ApiError::HashPassword("bad".to_string()).message(), "Failed to process the credential");
    assert_eq!(ApiError::Unauthenticated.message(), "Unauthorized");
    assert_eq!(ApiError::ValidationError(Vec::new()).message(), "Validation error");
}

#[test]
fn validation_envelope_carries_violations() {
    let v = vec![Violation { field: "a".to_string(), code: "length".to_string(), message: "m".to_string() }];
    let r = ApiError::ValidationError(v).error_response();
    assert_eq!(r.code, 422);
    assert_eq!(r.error, "Validation error");
    assert_eq!(r.violations.len(), 1);
    assert_eq!(r.violations[0].field, "a");
}

#[test]
fn response_envelopes() {
    let s = ApiResponse::success(5u32);
    assert_eq!(s.code, 0);
    assert_eq!(s.message, "success");
    assert_eq!(s.data, Some(5));
    assert_eq!(ApiResponse::error(42, "bad".to_string()).http_status(), 400);
    assert_eq!(ApiResponse::error(150, "no".to_string()).http_status(), 401);
    assert_eq!(ApiResponse::error(99, "x".to_string()).http_status(), 400);
    assert_eq!(ApiResponse::error(100, "x".to_string()).http_status(), 401);
    assert_eq!(ApiResponse::error(200, "x".to_string()).http_status(), 500);
    let e = ApiResponse::error(7, "m".to_string());
    assert!(e.data.is_none());
}
