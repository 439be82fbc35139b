use oidc_gate::{
    bearer_token, claims_from_outcome, escape_description, AuthError, Claims, MALFORMED_HEADER,
    MISSING_HEADER,
};

#[derive(Debug, Clone, PartialEq)]
struct UserClaims {
    sub: String,
    role: String,
}

fn user(sub: &str, role: &str) -> UserClaims {
    UserClaims { sub: sub.to_string(), role: role.to_string() }
}

fn refusal_reason<T>(r: Result<T, AuthError>) -> String {
    match r {
        Ok(_) => panic!("expected a refusal"),
        Err(e) => e.description().to_string(),
    }
}

fn accepted<T>(r: Result<Claims<T>, AuthError>) -> Claims<T> {
    match r {
        Ok(c) => c,
        Err(e) => panic!("expected claims, got refusal: {}", e.description()),
    }
}

#[test]
fn bearer_token_is_taken_from_header() {
    let token = bearer_token(Some(b"Bearer abc.def.ghi".as_slice()));
    assert_eq!(token.ok(), Some("abc.def.ghi".to_string()));
}

#[test]
fn leading_blanks_before_token_are_dropped() {
    let token = bearer_token(Some(b"Bearer  \ttok".as_slice()));
    assert_eq!(token.ok(), Some("tok".to_string()));
}

#[test]
fn empty_bearer_token_is_passed_on() {
    let token = bearer_token(Some(b"Bearer ".as_slice()));
    assert_eq!(token.ok(), Some(String::new()));
}

#[test]
fn admin_claims_reach_handler() {
    let token = bearer_token(Some(b"Bearer abc.def.ghi".as_slice())).ok().unwrap();
    assert_eq!(token, "abc.def.ghi");
    let claims = accepted(claims_from_outcome(Ok(user("u1", "admin"))));
    assert_eq!(claims.sub, "u1");
    assert_eq!(claims.role, "admin");
    assert_eq!(*claims.claims(), user("u1", "admin"));
    assert_eq!(claims.into_inner(), user("u1", "admin"));
}

#[test]
fn missing_header_is_refused_with_challenge() {
    let reason = refusal_reason(bearer_token(None));
    assert_eq!(reason, MISSING_HEADER);
    assert_eq!(reason, "Header of type `authorization` was missing");
    let response = AuthError::InvalidToken(reason).into_response();
    assert_eq!(response.status, 401);
    assert!(response
        .www_authenticate
        .starts_with("Bearer realm=\"ssh-casign\" error=\"invalid_token\""));
    assert!(response.www_authenticate.contains("error=\"invalid_token\""));
    assert!(response.body.is_empty());
}

#[test]
fn basic_scheme_is_refused() {
    let r = bearer_token(Some(b"Basic abc123".as_slice()));
    let reason = refusal_reason(r);
    assert_eq!(reason, MALFORMED_HEADER);
    assert_eq!(reason, "invalid HTTP header (authorization)");
    let response = AuthError::InvalidToken(reason).into_response();
    assert_eq!(response.status, 401);
    assert!(response.www_authenticate.contains("error=\"invalid_token\""));
    assert!(response.body.is_empty());
}

#[test]
fn scheme_name_is_case_sensitive() {
    let r = bearer_token(Some(b"bearer abc.def.ghi".as_slice()));
    assert_eq!(refusal_reason(r), MALFORMED_HEADER);
    let r = bearer_token(Some(b"BEARER abc.def.ghi".as_slice()));
    assert_eq!(refusal_reason(r), MALFORMED_HEADER);
}

#[test]
fn scheme_without_token_is_refused() {
    assert_eq!(refusal_reason(bearer_token(Some(b"Bearer".as_slice()))), MALFORMED_HEADER);
    assert_eq!(refusal_reason(bearer_token(Some(b"Bearerabc".as_slice()))), MALFORMED_HEADER);
    assert_eq!(refusal_reason(bearer_token(Some(b"".as_slice()))), MALFORMED_HEADER);
}

#[test]
fn header_that_is_not_text_is_refused() {
    let r = bearer_token(Some(b"Bearer ab\x01c".as_slice()));
    assert_eq!(refusal_reason(r), MALFORMED_HEADER);
    let r = bearer_token(Some(b"Bearer ab\xc3\xa9".as_slice()));
    assert_eq!(refusal_reason(r), MALFORMED_HEADER);
}

#[test]
fn validator_reason_is_reported() {
    let r: Result<Claims<UserClaims>, AuthError> =
        claims_from_outcome(Err("ExpiredSignature".to_string()));
    let reason = refusal_reason(r);
    assert_eq!(reason, "ExpiredSignature");
    let response = AuthError::InvalidToken(reason).into_response();
    assert_eq!(response.status, 401);
    assert_eq!(
        response.www_authenticate,
        "Bearer realm=\"ssh-casign\" error=\"invalid_token\" error_description=\"ExpiredSignature\""
    );
    assert!(response.body.is_empty());
}

#[test]
fn claims_of_wrong_shape_give_invalid_token() {
    let r: Result<Claims<UserClaims>, AuthError> =
        claims_from_outcome(Err("JWT Is Invalid".to_string()));
    let response = match r {
        Ok(_) => panic!("expected a refusal"),
        Err(e) => e.into_response(),
    };
    assert_eq!(response.status, 401);
    assert_eq!(
        response.www_authenticate,
        "Bearer realm=\"ssh-casign\" error=\"invalid_token\" error_description=\"JWT Is Invalid\""
    );
}

#[test]
fn same_token_twice_gives_equal_claims() {
    let first = bearer_token(Some(b"Bearer abc.def.ghi".as_slice())).ok().unwrap();
    let second = bearer_token(Some(b"Bearer  abc.def.ghi".as_slice())).ok().unwrap();
    assert_eq!(first, second);
    let a = accepted(claims_from_outcome(Ok(user("u1", "admin"))));
    let b = accepted(claims_from_outcome(Ok(user("u1", "admin"))));
    assert_eq!(*a, *b);
    assert_eq!(*a, user("u1", "admin"));
}

#[test]
fn quotes_and_backslashes_are_escaped() {
    assert_eq!(escape_description("say \"hi\" \\ ok"), "say \\\"hi\\\" \\\\ ok");
    let response = AuthError::InvalidToken("a\"b".to_string()).into_response();
    assert_eq!(
        response.www_authenticate,
        "Bearer realm=\"ssh-casign\" error=\"invalid_token\" error_description=\"a\\\"b\""
    );
}

#[test]
fn control_characters_become_spaces() {
    assert_eq!(escape_description("line\nbreak\ttab\u{7f}"), "line break tab ");
    assert_eq!(escape_description(""), "");
    assert_eq!(escape_description("caf\u{e9}"), "caf\u{e9}");
}

#[test]
fn description_is_read_back() {
    let e = AuthError::InvalidToken("reason".to_string());
    assert_eq!(e.description(), "reason");
}
