use cheetah_signaling::api::error::HttpError;
use cheetah_signaling::api::events::{
    resolve_start_cursor, resume_after, EventQuery, MAX_EVENT_CURSOR_BYTES, MAX_EVENT_DEVICE_ID_BYTES,
    MAX_EVENT_TYPE_BYTES,
};

#[test]
fn resolve_start_cursor_uses_latest_when_missing() {
    match resolve_start_cursor(None, 42) {
        Ok(cursor) => assert_eq!(cursor, 42),
        Err(_) => panic!("expected latest cursor"),
    }
}

#[test]
fn resolve_start_cursor_uses_latest_for_empty_string() {
    match resolve_start_cursor(Some("".into()), 42) {
        Ok(cursor) => assert_eq!(cursor, 42),
        Err(_) => panic!("expected latest cursor for empty string"),
    }
}

#[test]
fn resolve_start_cursor_parses_valid_cursor() {
    match resolve_start_cursor(Some("7".into()), 42) {
        Ok(cursor) => assert_eq!(cursor, 7),
        Err(_) => panic!("expected parsed cursor"),
    }
}

#[test]
fn resolve_start_cursor_rejects_non_numeric_cursor() {
    match resolve_start_cursor(Some("abc".into()), 42) {
        Err(err) => assert_eq!(err.status(), 400),
        Ok(_) => panic!("expected invalid cursor error"),
    }
}

#[test]
fn resolve_start_cursor_rejects_oversized_cursor() {
    match resolve_start_cursor(Some("0".repeat(MAX_EVENT_CURSOR_BYTES + 1)), 42) {
        Err(err) => assert_eq!(err.status(), 400),
        Ok(_) => panic!("expected oversized cursor error"),
    }
}

#[test]
fn event_query_rejects_oversized_device_id() {
    let query = EventQuery { device_id: Some("x".repeat(MAX_EVENT_DEVICE_ID_BYTES + 1)), ..Default::default() };
    assert!(query.validate().is_err());
}

#[test]
fn event_query_rejects_oversized_event_type() {
    let query = EventQuery { event_type: Some("x".repeat(MAX_EVENT_TYPE_BYTES + 1)), ..Default::default() };
    assert!(query.validate().is_err());
}

#[test]
fn event_query_accepts_defaults() {
    let query = EventQuery::default();
    assert!(query.validate().is_ok());
}

fn invalid_argument_message(r: Result<u64, HttpError>) -> String {
    match r {
        Err(HttpError::Signal(e)) => e.message,
        other => panic!("expected an invalid argument, got {other:?}"),
    }
}

#[test]
fn cursor_errors_name_the_problem() {
    assert_eq!(invalid_argument_message(resolve_start_cursor(Some("-1".into()), 0)), "cursor must be a non-negative integer");
    assert_eq!(invalid_argument_message(resolve_start_cursor(Some("1".repeat(33)), 0)), "cursor too long");
    // Twenty-one digits fit the length limit but not a u64.
    assert_eq!(
        invalid_argument_message(resolve_start_cursor(Some("18446744073709551616".into()), 0)),
        "cursor must be a non-negative integer"
    );
}

#[test]
fn largest_cursor_is_accepted() {
    assert_eq!(resolve_start_cursor(Some("18446744073709551615".into()), 0).unwrap(), u64::MAX);
    assert_eq!(resolve_start_cursor(Some("007".into()), 0).unwrap(), 7);
}

#[test]
fn event_query_limits_are_inclusive() {
    let query = EventQuery {
        device_id: Some("x".repeat(MAX_EVENT_DEVICE_ID_BYTES)),
        event_type: Some("y".repeat(MAX_EVENT_TYPE_BYTES)),
        ..Default::default()
    };
    assert!(query.validate().is_ok());
}

#[test]
fn resume_restarts_only_for_a_cursor_behind_the_latest() {
    assert_eq!(resume_after(0, 10), 10);
    assert_eq!(resume_after(10, 10), 10);
    assert_eq!(resume_after(4, 10), 0);
    assert_eq!(resume_after(12, 10), 10);
}
