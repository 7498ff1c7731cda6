use voice_service::not_found::NotFoundError;
use voice_service::server::{
    api_error_from_code, i64_to_decimal, into_response, response_envelope, str_equal, ApiError,
    Provider, RdSubType, RdType, ResponseError,
};

#[test]
fn providers_round_trip_through_their_names() {
    let all = [
        Provider::All,
        Provider::Phone,
        Provider::Email,
        Provider::Google,
        Provider::Microsoft,
        Provider::LinkedIn,
        Provider::Shopify,
        Provider::Hubspot,
        Provider::SalesForce,
        Provider::Zapier,
        Provider::Klaviyo,
    ];
    for p in all {
        assert_eq!(Provider::from_str(&p.to_display_string()), Ok(p));
    }
    assert_eq!(Provider::DefaultProvider.to_display_string(), "DefaultProvider");
    assert_eq!(Provider::from_str("DefaultProvider"), Err(()));
    assert_eq!(Provider::from_str("google"), Err(()));
    assert_eq!(Provider::from_str(""), Err(()));
    assert_eq!(Provider::default(), Provider::DefaultProvider);
}

#[test]
fn broker_message_names() {
    assert_eq!(RdType::VoiceGen.to_display_string(), "VoiceGen");
    assert_eq!(RdType::DefaultType.to_display_string(), "DefaultType");
    assert_eq!(RdSubType::Update.to_display_string(), "Update");
    assert_eq!(RdType::default(), RdType::DefaultType);
    assert_eq!(RdSubType::default(), RdSubType::DefaultSubType);
}

#[test]
fn answer_codes_name_errors() {
    assert_eq!(api_error_from_code(404), ApiError::NotFound);
    assert_eq!(api_error_from_code(403), ApiError::Forbidden);
    assert_eq!(api_error_from_code(400), ApiError::BadRequest);
    assert_eq!(api_error_from_code(500), ApiError::InternalServerError);
    assert_eq!(api_error_from_code(418), ApiError::InternalServerError);
    assert_eq!(ApiError::NotFound.status_code(), 404);
    assert_eq!(ApiError::BadRequest.status_code(), 400);
    assert_eq!(ApiError::NotFound.message(), "not found");
    assert_eq!(ApiError::InternalServerError.message(), "Internal Server error");
}

#[test]
fn refused_requests_keep_their_status() {
    for code in [400i64, 403, 404, 500] {
        assert_eq!(into_response(code, "{}").status_code() as i64, code);
    }
    for code in [200i64, 201, 401, 418, -1] {
        assert_eq!(into_response(code, "{}").status_code(), 500);
    }
}

#[test]
fn decimal_text() {
    assert_eq!(i64_to_decimal(0), "0");
    assert_eq!(i64_to_decimal(-120), "-120");
    assert_eq!(i64_to_decimal(9), "9");
    assert_eq!(i64_to_decimal(i64::MIN), i64::MIN.to_string());
    assert_eq!(i64_to_decimal(i64::MAX), i64::MAX.to_string());
}

#[test]
fn envelope_frames_the_body() {
    assert_eq!(response_envelope(404, "\"x\""), "{\"code\":404,\"result\":\"x\"}");
    assert_eq!(response_envelope(-3, "[]"), "{\"code\":-3,\"result\":[]}");
}

#[test]
fn response_errors_answer_with_status_and_text() {
    let e = into_response(403, "{\"error\":\"no\"}");
    assert_eq!(e.error, Some(ApiError::Forbidden));
    assert_eq!(e.message, "{\"code\":403,\"result\":{\"error\":\"no\"}}");
    assert_eq!(e.into_response(), (403, "{\"code\":403,\"result\":{\"error\":\"no\"}}".to_string()));

    let other = ResponseError { error: None, message: "boom".to_string() };
    assert_eq!(other.status_code(), 500);
    assert_eq!(other.into_response(), (500, "boom".to_string()));
}

#[test]
fn not_found_answers_with_a_json_string() {
    let e = NotFoundError::new("missing page");
    assert_eq!(e.message, "missing page");
    assert_eq!(e.into_response(), (404, "\"missing page\"".to_string()));
    let q = NotFoundError::new("say \"hi\"");
    assert_eq!(q.into_response(), (404, "\"say \\\"hi\\\"\"".to_string()));
}

#[test]
fn string_equality() {
    assert!(str_equal("abc", "abc"));
    assert!(!str_equal("abc", "abd"));
    assert!(!str_equal("abc", "ab"));
    assert!(str_equal("", ""));
}

#[test]
fn not_found_body_is_the_quoted_message() {
    assert_eq!(NotFoundError::new("Not Found").into_response(), (404, "\"Not Found\"".to_string()));
    assert_eq!(NotFoundError::new("tab\there").into_response().1, "\"tab\\there\"");
}
