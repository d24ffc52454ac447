use cheetah_signaling::api::error::HttpError;
use cheetah_signaling::api::request_limits::{check_limits, RequestLimits, RequestShape};

fn test_config() -> RequestLimits {
    RequestLimits { request_body_limit_bytes: 1024, max_request_headers: 4, max_request_uri_length: 64 }
}

fn request_with_uri(uri: &str) -> RequestShape {
    RequestShape { uri: uri.to_string(), header_count: 0, content_length: None }
}

fn refusal(req: &RequestShape) -> String {
    match check_limits(req, &test_config()) {
        Some(HttpError::PayloadTooLarge(m)) => m,
        other => panic!("expected a payload-too-large refusal, got {other:?}"),
    }
}

#[test]
fn uri_within_limit_is_allowed() {
    let req = request_with_uri("/api/v1/devices");
    assert!(check_limits(&req, &test_config()).is_none());
}

#[test]
fn uri_exceeding_length_is_rejected() {
    let long = format!("/api/v1/devices?{}={}", "x".repeat(50), "y".repeat(50));
    let req = request_with_uri(&long);
    let err = check_limits(&req, &test_config()).unwrap();
    assert_eq!(err.status(), 413);
}

#[test]
fn too_many_headers_is_rejected() {
    let mut req = request_with_uri("/api/v1/devices");
    req.header_count = 5;
    let err = check_limits(&req, &test_config()).unwrap();
    assert_eq!(err.status(), 413);
}

#[test]
fn oversized_content_length_is_rejected() {
    let req = RequestShape {
        uri: "/api/v1/devices".to_string(),
        header_count: 1,
        content_length: Some(Some("2048".to_string())),
    };
    let err = check_limits(&req, &test_config()).unwrap();
    assert_eq!(err.status(), 413);
}

#[test]
fn limit_messages_name_the_limit() {
    let long = format!("/{}", "a".repeat(64));
    assert_eq!(refusal(&request_with_uri(&long)), "request URI exceeds 64 bytes");
    let mut req = request_with_uri("/");
    req.header_count = 5;
    assert_eq!(refusal(&req), "request has more than 4 headers");
    req.header_count = 1;
    req.content_length = Some(Some("2048".to_string()));
    assert_eq!(refusal(&req), "content-length 2048 exceeds 1024 bytes");
}

#[test]
fn malformed_content_length_is_rejected() {
    let mut req = request_with_uri("/");
    req.content_length = Some(Some("12a".to_string()));
    assert_eq!(refusal(&req), "invalid content-length header");
    req.content_length = Some(None);
    assert_eq!(refusal(&req), "invalid content-length header");
}

#[test]
fn limits_are_inclusive() {
    let req = RequestShape {
        uri: format!("/{}", "a".repeat(63)),
        header_count: 4,
        content_length: Some(Some("1024".to_string())),
    };
    assert!(check_limits(&req, &test_config()).is_none());
}
