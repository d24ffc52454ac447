use cheetah_signaling::api::error::HttpError;
use cheetah_signaling::api::json_body::{
    ends_with_ignore_ascii_case, is_json_content_type, JsonBody, MAX_CONTENT_TYPE_BYTES,
};

#[test]
fn accepts_application_json() {
    assert!(is_json_content_type("application/json"));
}

#[test]
fn accepts_json_with_charset() {
    assert!(is_json_content_type("application/json; charset=utf-8"));
}

#[test]
fn accepts_json_vendor_suffix() {
    assert!(is_json_content_type("application/vnd.api+json"));
}

#[test]
fn accepts_json_vendor_suffix_with_charset() {
    assert!(is_json_content_type(
        "application/vnd.api+json; charset=utf-8"
    ));
}

#[test]
fn rejects_text_plain() {
    assert!(!is_json_content_type("text/plain"));
}

#[test]
fn rejects_application_xml() {
    assert!(!is_json_content_type("application/xml"));
}

#[test]
fn rejects_oversized_content_type() {
    assert!(!is_json_content_type(
        &("a/".to_string() + &"x".repeat(MAX_CONTENT_TYPE_BYTES))
    ));
}

#[test]
fn accepts_mixed_case_and_padding() {
    assert!(is_json_content_type("  APPLICATION/Problem+JSON ;x=y"));
    assert!(is_json_content_type("Application/JSON"));
    assert!(!is_json_content_type("text/json"));
    assert!(!is_json_content_type("applicationjson"));
    assert!(!is_json_content_type("application/jsonx"));
}

#[test]
fn content_type_at_limit_is_still_read() {
    let exact = "application/".to_string() + &"x".repeat(MAX_CONTENT_TYPE_BYTES - 17) + "+json";
    assert_eq!(exact.len(), MAX_CONTENT_TYPE_BYTES);
    assert!(is_json_content_type(&exact));
    let over = "application/".to_string() + &"x".repeat(MAX_CONTENT_TYPE_BYTES - 16) + "+json";
    assert!(!is_json_content_type(&over));
}

#[test]
fn suffix_compare_ignores_case() {
    assert!(ends_with_ignore_ascii_case("vnd.api+JSON", "+json"));
    assert!(!ends_with_ignore_ascii_case("json", "+json"));
    assert!(ends_with_ignore_ascii_case("", ""));
}

#[test]
fn content_type_check_accepts_empty_and_rejects_other() {
    assert!(JsonBody::<u8>::check_content_type("").is_ok());
    assert!(JsonBody::<u8>::check_content_type("application/json").is_ok());
    match JsonBody::<u8>::check_content_type("text/html") {
        Err(HttpError::Signal(e)) => {
            assert_eq!(e.message, "Content-Type must be application/json");
            assert_eq!(e.to_http_status(), 400);
        }
        other => panic!("unexpected {:?}", other),
    }
}

#[test]
fn subtype_whose_last_bytes_split_a_character_is_not_json() {
    assert!(!is_json_content_type("application/éjson"));
    assert!(!ends_with_ignore_ascii_case("éjson", "+json"));
    assert!(ends_with_ignore_ascii_case("vnd+JSON", "+json"));
}
