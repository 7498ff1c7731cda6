use voice_service::auth::{token_check_result, token_user, Claims, TokenError};

fn claims(sub: &str) -> Claims {
    Claims { sub: sub.to_string(), company: "acme".to_string(), exp: 0 }
}

#[test]
fn the_subject_is_the_user() {
    assert_eq!(token_user(Ok(claims("u1"))), Ok("u1".to_string()));
    assert_eq!(token_user(Ok(claims(""))), Err("User id is empty".to_string()));
}

#[test]
fn decoding_failures_are_reported_by_kind() {
    assert_eq!(token_user(Err(TokenError::InvalidToken)), Err("Token is invalid".to_string()));
    assert_eq!(token_user(Err(TokenError::InvalidIssuer)), Err("Issuer is invalid".to_string()));
    assert_eq!(token_user(Err(TokenError::Other)), Err("Some other errors".to_string()));
}

#[test]
fn the_service_grants_a_role_on_success() {
    assert_eq!(token_check_result("success", "admin".to_string()), Ok("admin".to_string()));
    assert_eq!(token_check_result("failure", "admin".to_string()), Err("Authentication failed".to_string()));
    assert_eq!(token_check_result("Success", "user".to_string()), Err("Authentication failed".to_string()));
}
