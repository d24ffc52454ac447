use cheetah_signaling::api::metrics::RequestMetrics;
use cheetah_signaling::gb::admission::{
    classify_event, coalescing_key, Admission, AdmissionState, Backlog, Coalescer, DeadLetter,
    DeadLetterQueue, Priority, TrafficClass,
};
use cheetah_signaling::gb::catalog::CatalogItem;
use cheetah_signaling::gb::device::{merge_metadata, plan_ensure_online, OnlinePlan};
use cheetah_signaling::gb::events::{
    control_outcome, plan_event, CommandOutcome, EventAction, GbEvent, Presence, RecordItem,
    SessionTransition,
};
use cheetah_signaling::gb::records::record_info_payload;
use cheetah_signaling::gb::session::{session_is_terminal, session_steps, SessionState, SessionStep};

fn keepalive(device: &str) -> GbEvent {
    GbEvent::Keepalive { device_id: device.to_string(), source: "10.0.0.1:5060".to_string() }
}

fn pairs(v: &[(&str, &str)]) -> Vec<(String, String)> {
    v.iter().map(|(k, x)| (k.to_string(), x.to_string())).collect()
}

#[test]
fn events_are_ignored_without_a_tenant() {
    assert!(matches!(plan_event(false, keepalive("d1")), EventAction::Ignore));
}

#[test]
fn registration_forces_online_and_bootstraps() {
    let e = GbEvent::DeviceRegistered {
        device_id: "d1".to_string(),
        registration_sequence: 9,
        source: "s".to_string(),
    };
    match plan_event(true, e) {
        EventAction::EnsureOnline { device_id, refresh, bootstrap } => {
            assert_eq!(device_id, "d1");
            assert!(refresh);
            assert_eq!(bootstrap, Some(9));
        }
        other => panic!("unexpected action {other:?}"),
    }
}

#[test]
fn keepalive_does_not_refresh() {
    match plan_event(true, keepalive("d1")) {
        EventAction::EnsureOnline { device_id, refresh, bootstrap } => {
            assert_eq!(device_id, "d1");
            assert!(!refresh);
            assert!(bootstrap.is_none());
        }
        other => panic!("unexpected action {other:?}"),
    }
}

#[test]
fn offline_presence_marks_device_offline() {
    let e = GbEvent::DevicePresenceChanged {
        device_id: "d1".to_string(),
        presence: Presence::Offline,
        source: "s".to_string(),
    };
    assert!(matches!(plan_event(true, e), EventAction::MarkOffline { device_id } if device_id == "d1"));
}

#[test]
fn device_info_becomes_metadata_in_key_order() {
    let e = GbEvent::DeviceInfoReceived {
        device_id: "d1".to_string(),
        result: Some("OK".to_string()),
        manufacturer: Some("Acme".to_string()),
        model: None,
        firmware: Some("1.2".to_string()),
        source: "s".to_string(),
    };
    match plan_event(true, e) {
        EventAction::UpdateDeviceInfo { device_id, metadata } => {
            assert_eq!(device_id, "d1");
            assert_eq!(metadata, pairs(&[("firmware", "1.2"), ("info_result", "OK"), ("manufacturer", "Acme")]));
        }
        other => panic!("unexpected action {other:?}"),
    }
}

#[test]
fn control_response_records_outcome() {
    assert_eq!(control_outcome(&Some("ok".to_string())), CommandOutcome::Succeeded);
    assert_eq!(control_outcome(&Some("ERROR".to_string())), CommandOutcome::Failed);
    assert_eq!(control_outcome(&None), CommandOutcome::Unknown);
    let e = GbEvent::DeviceControlResponseReceived {
        device_id: "d1".to_string(),
        sn: "17".to_string(),
        result: Some("OK".to_string()),
        source: "s".to_string(),
    };
    match plan_event(true, e) {
        EventAction::Append { resolve_device, external_id, event_type, payload, outcome } => {
            assert!(resolve_device);
            assert_eq!(external_id, "d1");
            assert_eq!(event_type, "DeviceControl");
            assert_eq!(payload, pairs(&[("result", "OK"), ("sn", "17")]));
            assert_eq!(outcome, Some(CommandOutcome::Succeeded));
        }
        other => panic!("unexpected action {other:?}"),
    }
}

#[test]
fn media_session_start_payload_lists_remote_endpoint() {
    let e = GbEvent::MediaSessionStarted {
        media_session_id: "m1".to_string(),
        domain_id: "dom".to_string(),
        device_id: "d1".to_string(),
        channel_id: "c1".to_string(),
        source: "10.0.0.2:5060".to_string(),
        remote_ssrc: None,
        remote_port: 30000,
        remote_proto: "RTP/AVP".to_string(),
    };
    match plan_event(true, e) {
        EventAction::MediaSession { media_session_id, transition, external_id, event_type, payload } => {
            assert_eq!(media_session_id, "m1");
            assert!(matches!(transition, SessionTransition::Start));
            assert_eq!(external_id, "d1");
            assert_eq!(event_type, "MediaSessionStarted");
            assert_eq!(
                payload,
                pairs(&[
                    ("channel_id", "c1"),
                    ("device_id", "d1"),
                    ("domain_id", "dom"),
                    ("media_session_id", "m1"),
                    ("remote_address", "10.0.0.2:5060"),
                    ("remote_port", "30000"),
                    ("remote_proto", "RTP/AVP"),
                ])
            );
        }
        other => panic!("unexpected action {other:?}"),
    }
}

#[test]
fn cascade_connection_is_recorded_against_the_platform() {
    let e = GbEvent::CascadePlatformConnected {
        domain_id: "dom".to_string(),
        platform_id: "p1".to_string(),
        upstream: "up".to_string(),
        expires: 3600,
    };
    match plan_event(true, e) {
        EventAction::Append { resolve_device, external_id, event_type, payload, outcome } => {
            assert!(!resolve_device);
            assert_eq!(external_id, "p1");
            assert_eq!(event_type, "CascadePlatformConnected");
            assert_eq!(payload, pairs(&[("domain_id", "dom"), ("expires", "3600"), ("platform_id", "p1"), ("upstream", "up")]));
            assert!(outcome.is_none());
        }
        other => panic!("unexpected action {other:?}"),
    }
}

#[test]
fn catalog_event_passes_its_items_on() {
    let e = GbEvent::CatalogReceived {
        device_id: "d1".to_string(),
        sn: "3".to_string(),
        sum_num: 2,
        num: 1,
        items: vec![CatalogItem { device_id: "c1".to_string(), ..Default::default() }],
        source: "s".to_string(),
    };
    match plan_event(true, e) {
        EventAction::Catalog { device_id, sn, sum_num, num, items } => {
            assert_eq!((device_id.as_str(), sn.as_str(), sum_num, num), ("d1", "3", 2, 1));
            assert_eq!(items.len(), 1);
        }
        other => panic!("unexpected action {other:?}"),
    }
}

#[test]
fn session_start_walks_through_the_missing_states() {
    let start = SessionTransition::Start;
    assert_eq!(
        session_steps(SessionState::Requested, &start),
        vec![SessionStep::Allocating, SessionStep::Inviting, SessionStep::Active]
    );
    assert_eq!(session_steps(SessionState::Inviting, &start), vec![SessionStep::Active]);
    assert!(session_steps(SessionState::Active, &start).is_empty());
}

#[test]
fn session_stop_and_fail() {
    let stop = SessionTransition::Stop;
    assert_eq!(session_steps(SessionState::Active, &stop), vec![SessionStep::Stop, SessionStep::StoppedIfStopping]);
    assert_eq!(session_steps(SessionState::Stopping, &stop), vec![SessionStep::Stopped]);
    assert!(session_steps(SessionState::Stopped, &stop).is_empty());
    let fail = SessionTransition::Fail("timeout".to_string());
    assert_eq!(session_steps(SessionState::Inviting, &fail), vec![SessionStep::Fail]);
    assert!(session_steps(SessionState::Failed, &fail).is_empty());
    assert!(session_is_terminal(SessionState::Stopped));
    assert!(!session_is_terminal(SessionState::Stopping));
}

#[test]
fn ensure_online_plans() {
    assert!(matches!(plan_ensure_online(Some(true), false, "d"), OnlinePlan::Known { mark: false }));
    assert!(matches!(plan_ensure_online(Some(false), false, "d"), OnlinePlan::Known { mark: true }));
    assert!(matches!(plan_ensure_online(Some(true), true, "d"), OnlinePlan::Known { mark: true }));
    assert!(matches!(plan_ensure_online(None, false, "d"), OnlinePlan::Nothing));
    match plan_ensure_online(None, true, "3402") {
        OnlinePlan::Register { protocol, external_id, authority, name, kind } => {
            assert_eq!(protocol, "gb28181");
            assert_eq!(external_id, "3402");
            assert_eq!(authority, "gb28181");
            assert_eq!(name, "3402");
            assert_eq!(kind, "camera");
        }
        other => panic!("unexpected plan {other:?}"),
    }
}

#[test]
fn merged_metadata_takes_new_values() {
    let existing = pairs(&[("a", "1"), ("b", "2")]);
    let updates = pairs(&[("b", "3"), ("c", "4")]);
    let mut merged = merge_metadata(&existing, &updates);
    merged.sort();
    assert_eq!(merged, pairs(&[("a", "1"), ("b", "3"), ("c", "4")]));
}

#[test]
fn record_info_payload_serializes_recordings() {
    let records = vec![RecordItem {
        device_id: "c1".to_string(),
        name: Some("rec".to_string()),
        ..Default::default()
    }];
    let p = record_info_payload("5", 1, 1, &records);
    let keys: Vec<&str> = p.iter().map(|(k, _)| k.as_str()).collect();
    assert_eq!(keys, vec!["num", "record_count", "records", "sn", "sum_num"]);
    assert_eq!(p[2].1, "[{\"device_id\":\"c1\",\"name\":\"rec\"}]");
    let empty = record_info_payload("5", 0, 0, &Vec::new());
    assert_eq!(empty, pairs(&[("num", "0"), ("record_count", "0"), ("sn", "5"), ("sum_num", "0")]));
}

#[test]
fn keepalives_and_positions_are_coalesced_per_device() {
    let (class, key) = classify_event(&keepalive("d1"), Some("t"));
    assert_eq!(class, TrafficClass::Keepalive);
    assert_eq!(key.as_deref(), Some("t:d1:keepalive"));
    assert!(coalescing_key(&keepalive("d1"), None).is_none());
    assert_eq!(TrafficClass::Keepalive.priority(), Priority::Low);
    assert_eq!(TrafficClass::Alarm.priority(), Priority::High);
    assert_eq!(TrafficClass::Catalog.priority(), Priority::Normal);
}

#[test]
fn coalescer_folds_repeated_keys_until_released() {
    let mut c = Coalescer::new(2);
    assert!(!c.observe("a".to_string()));
    assert!(c.observe("a".to_string()));
    c.release("a");
    assert!(!c.observe("a".to_string()));
}

#[test]
fn backlog_sheds_with_hysteresis() {
    let mut b = Backlog { high_watermark: 10, low_watermark: 2, shedding: false };
    b.observe(5);
    assert!(!b.shedding);
    b.observe(10);
    assert!(b.shedding);
    b.observe(5);
    assert!(b.shedding);
    b.observe(2);
    assert!(!b.shedding);
}

#[test]
fn dead_letter_queue_drops_oldest_when_full() {
    let mut q = DeadLetterQueue::new(2);
    for i in 0..3 {
        let dropped = q.push_entry(DeadLetter { event: keepalive(&format!("d{i}")), attempts: 0, at_ms: i });
        assert_eq!(dropped, i == 2);
    }
    let out = q.drain(5);
    let times: Vec<i64> = out.iter().map(|d| d.at_ms).collect();
    assert_eq!(times, vec![1, 2]);
    assert_eq!(q.len(), 0);
}

fn admission(pending: usize, shedding: bool) -> AdmissionState {
    AdmissionState {
        coalescer: Coalescer::new(16),
        backlog: Backlog { high_watermark: 100, low_watermark: 10, shedding },
        dlq: DeadLetterQueue::new(4),
        pending,
        metrics: RequestMetrics::default(),
        tenant_id: Some("t".to_string()),
    }
}

#[test]
fn second_keepalive_in_flight_is_coalesced() {
    let mut s = admission(0, false);
    let first = match s.admit_event(keepalive("d1")) {
        Admission::Send(t) => t,
        other => panic!("expected send, got {other:?}"),
    };
    s.send_result(first, true, 0);
    assert_eq!(s.pending, 1);
    assert!(matches!(s.admit_event(keepalive("d1")), Admission::Coalesced));
    assert_eq!(s.metrics.gb28181_events_coalesced_total, 1);
    s.finished(&Some("t:d1:keepalive".to_string()));
    assert!(matches!(s.admit_event(keepalive("d1")), Admission::Send(_)));
}

#[test]
fn low_priority_work_is_shed_under_load() {
    let mut s = admission(150, false);
    assert!(matches!(s.admit_event(keepalive("d1")), Admission::Shed));
    assert_eq!(s.metrics.gb28181_events_shed_total, 1);
    let alarm = GbEvent::AlarmReceived {
        device_id: "d1".to_string(),
        sn: "1".to_string(),
        priority: None,
        method: None,
        alarm_type: None,
        time: None,
        info: None,
        source: "s".to_string(),
    };
    assert!(matches!(s.admit_event(alarm), Admission::Send(_)));
}

#[test]
fn unqueued_normal_event_is_dead_lettered_and_redriven() {
    let mut s = admission(0, false);
    let e = GbEvent::DeviceUnregistered { device_id: "d1".to_string(), source: "s".to_string() };
    let t = match s.admit_event(e) {
        Admission::Send(t) => t,
        other => panic!("expected send, got {other:?}"),
    };
    s.send_result(t, false, 42);
    assert_eq!(s.dlq.len(), 1);
    assert_eq!(s.metrics.gb28181_events_dead_lettered_total, 1);
    let batch = s.redrive_batch(8);
    assert_eq!(batch.len(), 1);
    let (tagged, attempts, at_ms) = batch.into_iter().next().unwrap();
    assert_eq!((attempts, at_ms), (1, 42));
    s.redrive_result(tagged, attempts, at_ms, true);
    assert_eq!(s.metrics.gb28181_events_redriven_total, 1);
    assert_eq!(s.pending, 1);
}
