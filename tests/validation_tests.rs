use request_guard::error::ApiError;
use request_guard::extract::{Json, Path, Query, Valid, ValidJson, ValidPath, ValidQuery};
use request_guard::params::{
    Date, Gender, LoginParams, QueryParams, UpdateUserParams, UserParams, UserQueryParams,
};
use request_guard::validation::{
    check_number, check_text, matches_pattern, push_nested, validate_mobile_phone, Rule, Validate,
    Violation, MOBILE_PHONE_PATTERN,
};

fn login(account: &str, password: &str) -> LoginParams {
    LoginParams { account: account.to_string(), password: password.to_string() }
}

fn user(name: &str, account: &str, password: &str, phone: &str) -> UserParams {
    UserParams {
        name: name.to_string(),
        gender: Gender::Female,
        account: account.to_string(),
        password: password.to_string(),
        mobile_phone: phone.to_string(),
        birthday: Date { year: 1990, month: 5, day: 17 },
        enabled: true,
    }
}

#[test]
fn missing_required_and_too_long_are_both_reported() {
    let mut out: Vec<Violation> = Vec::new();
    check_text(&mut out, "account", None, &Rule::Required { message: "Account is required" });
    let long = "x".repeat(17);
    check_text(
        &mut out,
        "name",
        Some(&long),
        &Rule::Length { min: 1, max: 16, message: "Name must be between 1 and 16 characters long" },
    );
    assert_eq!(out.len(), 2);
    assert_eq!(out[0].field, "account");
    assert_eq!(out[0].code, "required");
    assert_eq!(out[0].message, "Account is required");
    assert_eq!(out[1].field, "name");
    assert_eq!(out[1].code, "length");
    let r = ApiError::ValidationError(out).error_response();
    assert_eq!(r.code, 422);
    assert_eq!(r.violations.len(), 2);
}

#[test]
fn absent_optional_value_skips_its_rules() {
    let mut out: Vec<Violation> = Vec::new();
    check_text(&mut out, "name", None, &Rule::Length { min: 1, max: 16, message: "m" });
    check_number(&mut out, "page", None, &Rule::Range { min: 1, max: 10, message: "m" });
    assert!(out.is_empty());
}

#[test]
fn length_bounds_are_inclusive_and_count_characters() {
    let mut out: Vec<Violation> = Vec::new();
    let six = "\u{00e9}\u{00e9}\u{00e9}\u{00e9}\u{00e9}\u{00e9}".to_string();
    check_text(&mut out, "p", Some(&six), &Rule::Length { min: 6, max: 6, message: "m" });
    assert!(out.is_empty());
    let five = "abcde".to_string();
    check_text(&mut out, "p", Some(&five), &Rule::Length { min: 6, max: 16, message: "m" });
    assert_eq!(out.len(), 1);
}

#[test]
fn range_bounds_are_inclusive() {
    let mut out: Vec<Violation> = Vec::new();
    check_number(&mut out, "n", Some(1), &Rule::Range { min: 1, max: 100, message: "m" });
    check_number(&mut out, "n", Some(100), &Rule::Range { min: 1, max: 100, message: "m" });
    assert!(out.is_empty());
    check_number(&mut out, "n", Some(0), &Rule::Range { min: 1, max: 100, message: "m" });
    check_number(&mut out, "n", Some(101), &Rule::Range { min: 1, max: 100, message: "m" });
    assert_eq!(out.len(), 2);
    assert_eq!(out[0].code, "range");
}

#[test]
fn mobile_phone_numbers() {
    assert!(validate_mobile_phone("13812345678").is_ok());
    assert!(validate_mobile_phone("19912345678").is_ok());
    let e = validate_mobile_phone("12812345678").unwrap_err();
    assert_eq!(e.code, "invalid_mobile_phone");
    assert_eq!(e.message, "Invalid mobile phone number format");
    assert!(validate_mobile_phone("1381234567").is_err());
    assert!(validate_mobile_phone("138123456789").is_err());
    assert!(validate_mobile_phone("1381234567a").is_err());
    assert!(validate_mobile_phone("").is_err());
}

#[test]
fn pattern_that_does_not_compile_matches_nothing() {
    assert!(!matches_pattern("(", "("));
    assert!(matches_pattern(MOBILE_PHONE_PATTERN, "15000000000"));
}

#[test]
fn login_params_rules() {
    assert!(login("alice", "secret1").validate().is_empty());
    let v = login("", "123").validate();
    assert_eq!(v.len(), 2);
    assert_eq!(v[0].field, "account");
    assert_eq!(v[0].message, "Account must be between 1 and 16 characters long");
    assert_eq!(v[1].field, "password");
    assert_eq!(v[1].message, "Password must be between 6 and 16 characters long");
}

#[test]
fn user_params_rules_in_field_order() {
    assert!(user("Ann", "ann", "secret1", "13812345678").validate().is_empty());
    let v = user("", "ann", "secret1", "123").validate();
    assert_eq!(v.len(), 2);
    assert_eq!(v[0].field, "name");
    assert_eq!(v[1].field, "mobile_phone");
    assert_eq!(v[1].code, "invalid_mobile_phone");
}

#[test]
fn update_params_check_only_present_fields() {
    let none = UpdateUserParams {
        name: None,
        gender: None,
        account: None,
        password: None,
        mobile_phone: None,
        birthday: None,
        enabled: None,
    };
    assert!(none.validate().is_empty());
    let some = UpdateUserParams {
        name: None,
        gender: Some(Gender::Male),
        account: Some("".to_string()),
        password: Some("short".to_string()),
        mobile_phone: Some("13812345678".to_string()),
        birthday: None,
        enabled: Some(false),
    };
    let v = some.validate();
    assert_eq!(v.len(), 2);
    assert_eq!(v[0].field, "account");
    assert_eq!(v[1].field, "password");
}

#[test]
fn query_params_defaults_and_rules() {
    let d = QueryParams::default();
    assert_eq!(d.page, 1);
    assert_eq!(d.page_size, 10);
    assert!(d.validate().is_empty());
    let v = QueryParams { page: 0, page_size: 101 }.validate();
    assert_eq!(v.len(), 2);
    assert_eq!(v[0].message, "Page must be greater than 0");
    assert_eq!(v[1].message, "Page size must be between 1 and 100");
}

#[test]
fn nested_violations_carry_dotted_paths() {
    let q = UserQueryParams { keyword: None, pagination: QueryParams { page: 0, page_size: 10 } };
    let v = q.validate();
    assert_eq!(v.len(), 1);
    assert_eq!(v[0].field, "pagination.page");
    let mut out: Vec<Violation> = Vec::new();
    push_nested(&mut out, "outer", v);
    assert_eq!(out[0].field, "outer.pagination.page");
}

#[test]
fn parse_failures_map_to_their_source() {
    let r: Result<ValidJson<LoginParams>, ApiError> = ValidJson::from_parsed(Err("eof".to_string()));
    match r {
        Err(ApiError::InvalidJsonBody(m)) => assert_eq!(m, "eof"),
        _ => panic!("expected a body rejection"),
    }
    let r: Result<ValidQuery<QueryParams>, ApiError> = ValidQuery::from_parsed(Err("q".to_string()));
    assert!(matches!(r, Err(ApiError::InvalidQueryParams(_))));
    let r: Result<ValidPath<QueryParams>, ApiError> = ValidPath::from_parsed(Err("p".to_string()));
    assert!(matches!(r, Err(ApiError::InvalidPathParams(_))));
    let r: Result<Path<u64>, ApiError> = Path::from_parsed(Err("p".to_string()));
    assert!(matches!(r, Err(ApiError::InvalidPathParams(_))));
    let r: Result<Query<u64>, ApiError> = Query::from_parsed(Err("q".to_string()));
    assert!(matches!(r, Err(ApiError::InvalidQueryParams(_))));
    let r: Result<Json<u64>, ApiError> = Json::from_parsed(Ok(5));
    assert_eq!(r.unwrap().0, 5);
}

#[test]
fn semantic_failures_are_validation_errors() {
    let r = ValidJson::from_parsed(Ok(login("", "x")));
    match r {
        Err(ApiError::ValidationError(v)) => assert_eq!(v.len(), 2),
        _ => panic!("expected a validation error"),
    }
    let ok = ValidJson::from_parsed(Ok(login("alice", "secret1"))).unwrap();
    assert_eq!(ok.0.account, "alice");
    assert!(Valid::new(QueryParams { page: 2, page_size: 20 }).is_ok());
    assert!(matches!(
        Valid::new(QueryParams { page: 2, page_size: 0 }),
        Err(ApiError::ValidationError(_))
    ));
}
