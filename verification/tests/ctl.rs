use cheetah_signaling::ctl::{
    admin_url, build_headers, device_diagnostics_url, format_response_output, handle_response_body,
};

#[test]
fn admin_url_appends_path_to_base() -> Result<(), Box<dyn std::error::Error + Send + Sync>> {
    let url = admin_url("http://localhost:8080", "/api/v1/admin/db-status")?;
    assert_eq!(url.as_str(), "http://localhost:8080/api/v1/admin/db-status");
    Ok(())
}

#[test]
fn admin_url_works_with_trailing_slash() -> Result<(), Box<dyn std::error::Error + Send + Sync>> {
    let url = admin_url("http://localhost:8080/", "/api/v1/admin/db-status")?;
    assert_eq!(url.as_str(), "http://localhost:8080/api/v1/admin/db-status");
    Ok(())
}

#[test]
fn admin_url_strips_empty_trailing_path_segment() -> Result<(), Box<dyn std::error::Error + Send + Sync>> {
    let url = admin_url("https://gw.example.com/cheetah/", "/api/v1/admin/db-status")?;
    assert_eq!(url.as_str(), "https://gw.example.com/cheetah/api/v1/admin/db-status");
    Ok(())
}

#[test]
fn device_diagnostics_url_encodes_id() -> Result<(), Box<dyn std::error::Error + Send + Sync>> {
    let url = device_diagnostics_url("http://localhost:8080", "dev/ 1")?;
    assert_eq!(url.as_str(), "http://localhost:8080/api/v1/admin/devices/dev%2F%201/diagnostics");
    Ok(())
}

#[test]
fn device_diagnostics_url_strips_empty_trailing_path_segment() -> Result<(), Box<dyn std::error::Error + Send + Sync>> {
    let url = device_diagnostics_url("https://gw.example.com/cheetah/", "dev-1")?;
    assert_eq!(url.as_str(), "https://gw.example.com/cheetah/api/v1/admin/devices/dev-1/diagnostics");
    Ok(())
}

#[test]
fn admin_url_reports_a_base_that_cannot_take_segments() {
    assert_eq!(
        admin_url("mailto:ops@example.com", "/api/v1/admin/db-status"),
        Err("base URL cannot be used as a base for path segments".to_string())
    );
}

#[test]
fn admin_url_reports_the_parse_error() {
    assert_eq!(
        admin_url("not a url", "/api/v1/admin/db-status"),
        Err("relative URL without a base".to_string())
    );
}

#[test]
fn device_diagnostics_url_rejects_empty_id() {
    assert!(device_diagnostics_url("http://localhost:8080", "").is_err());
}

#[test]
fn build_headers_rejects_invalid_header_values() {
    assert!(build_headers(Some("bad\nvalue"), None).is_err());
}

#[test]
fn build_headers_sets_accept_api_key_and_tenant() -> Result<(), Box<dyn std::error::Error + Send + Sync>> {
    let headers = build_headers(Some("secret-key"), Some("tenant-42"))?;
    let expected = vec![
        ("accept".to_string(), "application/json".to_string()),
        ("x-api-key".to_string(), "secret-key".to_string()),
        ("x-tenant-id".to_string(), "tenant-42".to_string()),
    ];
    assert_eq!(headers, expected);
    Ok(())
}

#[test]
fn format_response_output_returns_body_on_success() {
    assert_eq!(format_response_output(200, "hello").unwrap(), "hello");
}

#[test]
fn format_response_output_returns_empty_json_object_for_empty_success_body() {
    assert_eq!(format_response_output(200, "  ").unwrap(), "{}");
}

#[test]
fn format_response_output_returns_json_for_error_status() {
    let err = format_response_output(500, "boom").unwrap_err();
    let parsed: serde_json::Value = serde_json::from_str(&err).unwrap();
    assert_eq!(parsed["status"], 500);
    assert_eq!(parsed["body"], "boom");
}

#[test]
fn build_headers_rejects_invalid_tenant_only() {
    assert_eq!(build_headers(None, Some("t\u{7f}")), Err("failed to parse header value".to_string()));
}

#[test]
fn build_headers_without_credentials_sends_accept_only() {
    let headers = build_headers(None, None).unwrap();
    assert_eq!(headers, vec![("accept".to_string(), "application/json".to_string())]);
}

#[test]
fn format_response_output_quotes_error_body() {
    let err = format_response_output(404, "say \"hi\"").unwrap_err();
    let parsed: serde_json::Value = serde_json::from_str(&err).unwrap();
    assert_eq!(parsed["status"], 404);
    assert_eq!(parsed["body"], "say \"hi\"");
}

#[test]
fn device_diagnostics_url_rejects_unparsable_base() {
    assert!(device_diagnostics_url("not a url", "dev-1").is_err());
}

#[test]
fn handle_response_rejects_invalid_utf8_body() {
    assert!(handle_response_body(200, &[0xff]).is_err());
}

#[test]
fn handle_response_returns_ok_for_valid_success_body() {
    assert!(handle_response_body(200, b"{\"ok\": true}").is_ok());
}

#[test]
fn invalid_utf8_body_is_reported_as_json() {
    let err = handle_response_body(502, &[b'a', 0xc3]).unwrap_err();
    let parsed: serde_json::Value = serde_json::from_str(&err).unwrap();
    assert_eq!(parsed["status"], 502);
    assert!(parsed["body"].as_str().unwrap().starts_with("response body is not valid UTF-8: "));
    assert_eq!(handle_response_body(200, "héllo".as_bytes()).unwrap(), "héllo");
}

#[test]
fn error_body_uses_json_string_escapes() {
    let err = format_response_output(500, "a\u{1}\"\\\n\u{7f}é").unwrap_err();
    assert_eq!(err, "{\"body\":\"a\\u0001\\\"\\\\\\n\u{7f}é\",\"status\":500}");
}
