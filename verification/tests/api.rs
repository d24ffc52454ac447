use cheetah_signaling::api::error::{HttpError, SignalError, SignalErrorKind};
use cheetah_signaling::api::event_cache::EventCache;
use cheetah_signaling::api::extract::{
    check_tenant_rate_limit, parse_message_or_correlation_id, resolve_tenant_id, tenant_rate_protocol,
    CommandOptions, IdempotencyKey,
};
use cheetah_signaling::api::media::{media_purpose, MediaPurpose};
use cheetah_signaling::api::metrics::{metrics_response, RequestMetrics};
use cheetah_signaling::api::rate_limit::{path_segments, request_protocol, RateKey, RateLimiter, SourceAddr};
use cheetah_signaling::api::router::{
    cors_policy, fallback_problem, may_need_request_id, problem_needs_request_id, str_contains, CorsPolicy,
    RequestId, RequestIdMember,
};

const SECOND: u64 = 1_000_000_000;

fn key(tenant: &str) -> RateKey {
    RateKey {
        source: SourceAddr::V4(0x7f00_0001),
        tenant: tenant.to_string(),
        protocol: "devices".to_string(),
        node: "n1".to_string(),
    }
}

#[test]
fn error_statuses_and_codes() {
    let e = HttpError::RateLimited("slow down".to_string());
    assert_eq!(e.status(), 429);
    assert_eq!(e.code(), "RATE_LIMITED");
    assert_eq!(e.message(), "rate limited: slow down");
    let e = HttpError::PayloadTooLarge("big".to_string());
    assert_eq!((e.status(), e.code()), (413, "PAYLOAD_TOO_LARGE"));
    let e = HttpError::Signal(SignalError::new(SignalErrorKind::InvalidArgument, "bad".to_string()));
    assert_eq!((e.status(), e.code()), (400, "INVALID_ARGUMENT"));
    assert_eq!(HttpError::Unauthenticated(String::new()).status(), 401);
    assert_eq!(HttpError::PermissionDenied(String::new()).status(), 403);
    assert_eq!(HttpError::NotImplemented(String::new()).status(), 501);
    assert_eq!(HttpError::InvalidJson(String::new()).code(), "INVALID_JSON");
}

#[test]
fn internal_errors_hide_their_detail() {
    let p = HttpError::Internal("db password is hunter2".to_string()).to_problem(Some("r1".to_string()));
    assert_eq!(p.status, 500);
    assert_eq!(p.code, "INTERNAL");
    assert_eq!(p.message, "internal server error");
    assert_eq!(p.request_id.as_deref(), Some("r1"));
    let p = HttpError::PermissionDenied("missing viewer scope".to_string()).to_problem(None);
    assert_eq!(p.message, "permission denied: missing viewer scope");
}

#[test]
fn rate_limiter_refuses_after_the_burst_and_refills() {
    let mut limiter = RateLimiter::new(2, 1, 0);
    assert!(limiter.check(&key("t"), 0));
    assert!(limiter.check(&key("t"), 0));
    assert!(!limiter.check(&key("t"), 0));
    assert!(!limiter.check(&key("t"), 0));
    assert!(limiter.check(&key("t"), SECOND));
    assert!(!limiter.check(&key("t"), SECOND));
}

#[test]
fn rate_limiter_buckets_are_per_key() {
    let mut limiter = RateLimiter::new(1, 1, 0);
    assert!(limiter.check(&key("a"), 0));
    assert!(!limiter.check(&key("a"), 0));
    assert!(limiter.check(&key("b"), 0));
}

#[test]
fn disabled_rate_limiter_allows_everything() {
    let mut limiter = RateLimiter::new(0, 5, 0);
    assert!(limiter.is_disabled());
    for _ in 0..10 {
        assert!(limiter.check(&key("t"), 0));
    }
    assert!(RateLimiter::new(5, 0, 0).is_disabled());
    assert!(!RateLimiter::new(5, 1, 0).is_disabled());
}

#[test]
fn rate_limit_protocol_comes_from_the_path() {
    assert_eq!(request_protocol("/api/v1/devices/123"), "devices");
    assert_eq!(request_protocol("/api/v1"), "api");
    assert_eq!(request_protocol("/api/v2/x"), "v2");
    assert_eq!(request_protocol("/health"), "health");
    assert_eq!(request_protocol("/"), "");
    assert_eq!(path_segments("//a//b/"), vec!["a", "b"]);
    assert_eq!(tenant_rate_protocol("/api/v1/devices"), "api");
    assert_eq!(tenant_rate_protocol("nodelimiter"), "");
}

#[test]
fn tenant_rate_limit_answers_429() {
    let mut limiter = RateLimiter::new(1, 1, 0);
    assert!(check_tenant_rate_limit(&mut limiter, SourceAddr::V4(1), "t", "/api/v1/x", "n", 0).is_ok());
    match check_tenant_rate_limit(&mut limiter, SourceAddr::V4(1), "t", "/api/v1/x", "n", 0) {
        Err(e) => assert_eq!(e.status(), 429),
        Ok(()) => panic!("expected a rate-limit refusal"),
    }
}

#[test]
fn tenant_resolution() {
    let id = "67e55044-10b1-426f-9247-bb680e5fe0c8";
    let value = 0x67e5504410b1426f9247bb680e5fe0c8u128;
    assert_eq!(resolve_tenant_id(Some(id), None).unwrap(), value);
    assert_eq!(resolve_tenant_id(Some(id), Some(value)).unwrap(), value);
    assert_eq!(resolve_tenant_id(None, Some(7)).unwrap(), 7);
    assert!(matches!(resolve_tenant_id(Some(id), Some(7)), Err(HttpError::PermissionDenied(_))));
    assert!(matches!(resolve_tenant_id(Some("nope"), None), Err(HttpError::Signal(_))));
    assert!(matches!(resolve_tenant_id(None, None), Err(HttpError::Unauthenticated(_))));
}

#[test]
fn correlation_ids_must_be_uuids() {
    let id = "67e55044-10b1-426f-9247-bb680e5fe0c8";
    assert_eq!(parse_message_or_correlation_id(Some(id), "x-request-id").unwrap(), 0x67e5504410b1426f9247bb680e5fe0c8);
    match parse_message_or_correlation_id(Some("zzz"), "x-request-id") {
        Err(HttpError::Unauthenticated(m)) => assert!(m.starts_with("invalid x-request-id: ")),
        other => panic!("unexpected {other:?}"),
    }
    match parse_message_or_correlation_id(None, "x-correlation-id") {
        Err(HttpError::Unauthenticated(m)) => assert_eq!(m, "x-correlation-id header is not valid UTF-8"),
        other => panic!("unexpected {other:?}"),
    }
}

#[test]
fn request_and_idempotency_keys_default_to_fresh_uuids() {
    assert_eq!(RequestId::from_header(Some("abc")).0, "abc");
    let fresh = RequestId::from_header(Some("")).0;
    assert_eq!(fresh.len(), 36);
    let c: Vec<char> = fresh.chars().collect();
    for (i, ch) in c.iter().enumerate() {
        if [8, 13, 18, 23].contains(&i) {
            assert_eq!(*ch, '-');
        } else {
            assert!(ch.is_ascii_hexdigit() && !ch.is_ascii_uppercase());
        }
    }
    assert_eq!(c[14], '7');
    assert!("89ab".contains(c[19]));
    assert_ne!(fresh, RequestId::from_header(None).0);
    assert_eq!(IdempotencyKey::from_header(Some("k-1")).0, "k-1");
    assert_eq!(IdempotencyKey::from_header(None).0.len(), 36);
    assert_eq!(CommandOptions::default().owner_epoch(), 1);
    assert_eq!(CommandOptions { deadline: None, owner_epoch: Some(4) }.owner_epoch(), 4);
}

#[test]
fn event_cache_keeps_the_newest_events() {
    let mut c = EventCache::new(2);
    assert_eq!(c.latest_cursor(), 0);
    assert_eq!(c.push("t".to_string(), Some("d1".to_string()), "A".to_string(), "{}".to_string()), 1);
    assert_eq!(c.push("t".to_string(), Some("d2".to_string()), "B".to_string(), "{}".to_string()), 2);
    assert_eq!(c.push("u".to_string(), None, "A".to_string(), "{}".to_string()), 3);
    assert_eq!(c.latest_cursor(), 3);
    let all: Vec<u64> = c.events_after(0, None, None, None).iter().map(|e| e.cursor).collect();
    assert_eq!(all, vec![2, 3]);
    let of_t: Vec<u64> = c.events_after(0, Some("t"), None, None).iter().map(|e| e.cursor).collect();
    assert_eq!(of_t, vec![2]);
    let of_type: Vec<u64> = c.events_after(0, None, None, Some("A")).iter().map(|e| e.cursor).collect();
    assert_eq!(of_type, vec![3]);
    assert!(c.events_after(0, None, Some("d1"), None).is_empty());
    assert!(c.events_after(3, None, None, None).is_empty());
}

#[test]
fn response_counters_by_status_class() {
    let mut m = RequestMetrics::default();
    m.record_request();
    m.record_response(204);
    m.record_response(404);
    m.record_response(503);
    m.record_response(302);
    assert_eq!(m.requests_total, 1);
    assert_eq!((m.responses_2xx, m.responses_4xx, m.responses_5xx, m.responses_failed), (1, 1, 1, 1));
}

#[test]
fn duration_histogram_is_cumulative() {
    let mut m = RequestMetrics::default();
    m.record_duration(7_000_000);
    m.record_duration(20_000_000_000);
    assert_eq!(m.duration_sum_ns(), 20_007_000_000);
    assert_eq!(m.bucket_counts(), vec![0, 1, 1, 1, 1, 1, 1, 1, 1, 1, 1, 2]);
}

#[test]
fn cors_policy_from_origins() {
    assert!(matches!(cors_policy(&vec!["https://a".to_string(), "*".to_string()]), CorsPolicy::AllowAny));
    assert!(matches!(cors_policy(&Vec::new()), CorsPolicy::Deny));
    assert!(matches!(cors_policy(&vec![String::new(), "bad\norigin".to_string()]), CorsPolicy::Deny));
    match cors_policy(&vec!["https://a".to_string(), String::new(), "https://b".to_string()]) {
        CorsPolicy::AllowList(list) => assert_eq!(list, vec!["https://a", "https://b"]),
        other => panic!("unexpected {other:?}"),
    }
}

#[test]
fn request_id_is_added_to_json_error_bodies_only() {
    assert!(may_need_request_id(404, "application/problem+json"));
    assert!(may_need_request_id(500, "application/json; charset=utf-8"));
    assert!(!may_need_request_id(200, "application/json"));
    assert!(!may_need_request_id(404, "text/plain"));
    assert!(problem_needs_request_id(true, true, &RequestIdMember::Missing));
    assert!(problem_needs_request_id(true, true, &RequestIdMember::Null));
    assert!(problem_needs_request_id(true, true, &RequestIdMember::Text(String::new())));
    assert!(!problem_needs_request_id(true, true, &RequestIdMember::Text("r".to_string())));
    assert!(!problem_needs_request_id(true, false, &RequestIdMember::Missing));
    assert!(!problem_needs_request_id(false, true, &RequestIdMember::Missing));
    assert!(!problem_needs_request_id(true, true, &RequestIdMember::OtherValue));
    assert!(str_contains("abc", ""));
    assert!(str_contains("abc", "bc"));
    assert!(!str_contains("ab", "abc"));
}

#[test]
fn unknown_routes_answer_not_found() {
    let p = fallback_problem();
    assert_eq!(p.code, "NOT_FOUND");
    assert_eq!(p.message, "resource not found");
    assert_eq!(p.status, 404);
    assert!(p.request_id.is_none());
    assert!(p.field_violations.is_empty());
}

#[test]
fn metrics_exposition_lists_counters_and_histogram() {
    let mut m = RequestMetrics::default();
    m.record_request();
    m.record_response(200);
    m.record_duration(7_000_000);
    let sum_seconds = format!("{}", m.duration_sum_ns() as f64 / 1_000_000_000.0);
    let text = metrics_response(&m, &sum_seconds, &vec!["media_up 1\n".to_string()]);
    let lines: Vec<&str> = text.lines().collect();
    assert_eq!(lines[0], "# TYPE cheetah_http_requests_total counter");
    assert_eq!(lines[1], "cheetah_http_requests_total 1");
    assert_eq!(lines[5], "cheetah_http_responses_2xx_total 1");
    assert_eq!(lines.len(), 24 + 1 + 12 + 2 + 1);
    assert_eq!(lines[24], "# TYPE cheetah_http_response_duration_seconds histogram");
    assert_eq!(lines[25], "cheetah_http_response_duration_seconds_bucket{le=\"0.005\"} 0");
    assert_eq!(lines[26], "cheetah_http_response_duration_seconds_bucket{le=\"0.01\"} 1");
    assert_eq!(lines[32], "cheetah_http_response_duration_seconds_bucket{le=\"1\"} 1");
    assert_eq!(lines[36], "cheetah_http_response_duration_seconds_bucket{le=\"+Inf\"} 1");
    assert_eq!(lines[37], "cheetah_http_response_duration_seconds_sum 0.007");
    assert_eq!(lines[38], "cheetah_http_response_duration_seconds_count 1");
    assert_eq!(lines[39], "media_up 1");
    assert_eq!(cheetah_signaling::api::metrics::metrics_content_type(), "text/plain; version=0.0.4");
}

#[test]
fn media_purpose_is_read_in_lowercase() {
    assert_eq!(media_purpose(None).unwrap(), MediaPurpose::Live);
    assert_eq!(media_purpose(Some("LIVE")).unwrap(), MediaPurpose::Live);
    assert_eq!(media_purpose(Some("PlayBack")).unwrap(), MediaPurpose::Playback);
    assert_eq!(media_purpose(Some("tal\u{212A}")).unwrap(), MediaPurpose::Talk);
    match media_purpose(Some("record")) {
        Err(HttpError::Signal(e)) => {
            assert_eq!(e.kind, SignalErrorKind::InvalidArgument);
            assert_eq!(e.message, "unsupported media purpose");
        }
        other => panic!("unexpected {other:?}"),
    }
    assert!(media_purpose(Some("")).is_err());
}

#[test]
fn request_counter_adds_every_request() {
    let mut m = RequestMetrics::default();
    for _ in 0..5 {
        m.record_request();
    }
    assert_eq!(m.requests_total, 5);
    m.requests_total = u64::MAX - 1;
    m.record_request();
    m.record_request();
    m.record_request();
    assert_eq!(m.requests_total, 1);
}
