use cheetah_signaling::gb::admission::admission_limits;
use cheetah_signaling::workers::{delivery_reply, dispatcher_principal, DeliveryReply, DispatchStage};
use cheetah_signaling::runtime::{check_nats_url, heartbeat_interval_ms, lease_ttl_ms, listener_tenant, renew_interval_ms};
use cheetah_signaling::onvif::{
    device_metadata, device_name, discovery_schedule, provision_plan, DeviceInformation, DiscoverySkip,
};
use cheetah_signaling::runtime::{
    grpc_tls_plan, AuditOutcome, ComponentStatus, RuntimeHealth, TracingAuditLog, UuidIdGenerator,
};
use cheetah_signaling::workers::{
    channel_id_from_payload, gb28181_outcome, is_gb28181_command, peers_to_drain, plugin_outcome, plugin_route,
    CommandDispatch, CommandResult, PayloadShape, PluginTarget,
};

fn rejected_reason(r: CommandResult) -> String {
    match r {
        CommandResult::Rejected { reason } => reason,
        other => panic!("expected a rejection, got {other:?}"),
    }
}

#[test]
fn gb28181_command_fans_out_to_all_listener_buses() {
    let sends = vec![Err("device not registered".to_string()), Ok(()), Err("device not registered".to_string())];
    match gb28181_outcome("Ptz", 3, true, &sends) {
        CommandResult::Accepted { dispatch: CommandDispatch::Sent, payload } => {
            assert_eq!(payload.as_deref(), Some("{\"command_kind\":\"Ptz\",\"protocol\":\"gb28181\"}"));
        }
        other => panic!("unexpected {other:?}"),
    }
}

#[test]
fn gb28181_command_reaches_single_listener_bus() {
    match gb28181_outcome("Query", 1, true, &vec![Ok(())]) {
        CommandResult::Accepted { dispatch: CommandDispatch::Sent, .. } => {}
        other => panic!("unexpected {other:?}"),
    }
}

#[test]
fn gb28181_command_rejected_without_any_bus() {
    assert_eq!(rejected_reason(gb28181_outcome("Ptz", 0, true, &Vec::new())), "gb28181 command bus not available");
}

#[test]
fn unresolved_gb28181_target_is_rejected() {
    assert_eq!(
        rejected_reason(gb28181_outcome("Ptz", 2, false, &Vec::new())),
        "unable to resolve gb28181 command target"
    );
}

#[test]
fn failed_fan_out_reports_the_last_error() {
    let sends = vec![Err("first".to_string()), Err("second".to_string())];
    match gb28181_outcome("Ptz", 2, true, &sends) {
        CommandResult::Accepted { dispatch: CommandDispatch::TransportFailed { reason }, payload } => {
            assert_eq!(reason, "second");
            assert!(payload.is_none());
        }
        other => panic!("unexpected {other:?}"),
    }
    match gb28181_outcome("Ptz", 2, true, &Vec::new()) {
        CommandResult::Accepted { dispatch: CommandDispatch::TransportFailed { reason }, .. } => {
            assert_eq!(reason, "all gb28181 command buses closed");
        }
        other => panic!("unexpected {other:?}"),
    }
}

#[test]
fn payload_shapes_route_and_name_channels() {
    assert!(is_gb28181_command(&PayloadShape::Ptz { channel_id: 5 }));
    assert!(is_gb28181_command(&PayloadShape::Query { channel_id: None }));
    assert!(!is_gb28181_command(&PayloadShape::Other));
    assert_eq!(channel_id_from_payload(&PayloadShape::Preset { channel_id: 9 }), Some(9));
    assert_eq!(channel_id_from_payload(&PayloadShape::DeviceControl { channel_id: None }), None);
    assert_eq!(channel_id_from_payload(&PayloadShape::Other), None);
}

#[test]
fn plugin_routing_by_command_kind() {
    assert_eq!(plugin_route("StartLive").unwrap(), PluginTarget::Gb28181);
    assert_eq!(plugin_route("process_sip").unwrap(), PluginTarget::Gb28181);
    assert_eq!(plugin_route("OnvifPtz").unwrap(), PluginTarget::Onvif);
    assert_eq!(plugin_route("onvif_snapshot").unwrap(), PluginTarget::Onvif);
    match plugin_route("startlive") {
        Err(r) => assert_eq!(rejected_reason(r), "unsupported command kind: startlive"),
        Ok(t) => panic!("unexpected target {t:?}"),
    }
    assert_eq!(PluginTarget::Onvif.name(), "cheetah/onvif");
}

#[test]
fn plugin_outcomes() {
    assert_eq!(rejected_reason(plugin_outcome("StartLive", PluginTarget::Gb28181, None)), "plugin not found: cheetah/gb28181");
    match plugin_outcome("StartLive", PluginTarget::Gb28181, Some(Ok(()))) {
        CommandResult::Accepted { dispatch: CommandDispatch::Sent, payload } => assert_eq!(
            payload.as_deref(),
            Some("{\"command_kind\":\"StartLive\",\"plugin\":\"cheetah/gb28181\"}")
        ),
        other => panic!("unexpected {other:?}"),
    }
    match plugin_outcome("OnvifPtz", PluginTarget::Onvif, Some(Err("timeout".to_string()))) {
        CommandResult::Accepted { dispatch: CommandDispatch::TransportFailed { reason }, payload } => {
            assert_eq!(reason, "timeout");
            assert!(payload.is_none());
        }
        other => panic!("unexpected {other:?}"),
    }
}

fn info(manufacturer: &str, model: &str, serial: &str) -> DeviceInformation {
    DeviceInformation {
        manufacturer: manufacturer.to_string(),
        model: model.to_string(),
        firmware_version: String::new(),
        serial_number: serial.to_string(),
        hardware_id: String::new(),
    }
}

#[test]
fn onvif_device_name_joins_known_parts() {
    assert_eq!(device_name(&info("Acme", "X1", "123"), "urn:uuid:1"), "Acme X1 123");
    assert_eq!(device_name(&info("Acme", "", "123"), "urn:uuid:1"), "Acme 123");
    assert_eq!(device_name(&info("", "", ""), "urn:uuid:1"), "urn:uuid:1");
}

#[test]
fn onvif_metadata_keeps_non_empty_attributes() {
    let mut i = info("Acme", "", "123");
    i.firmware_version = "2.0".to_string();
    let m = device_metadata(&i, "http://10.0.0.5/onvif/device_service");
    let keys: Vec<&str> = m.iter().map(|(k, _)| k.as_str()).collect();
    assert_eq!(keys, vec!["endpoint", "firmware_version", "manufacturer", "serial_number"]);
    assert_eq!(m[0].1, "http://10.0.0.5/onvif/device_service");
}

#[test]
fn onvif_provisioning_registers_a_camera() {
    let p = provision_plan(&info("Acme", "X1", ""), "urn:uuid:1", "http://10.0.0.5:8080/onvif/device_service");
    assert_eq!(p.register.protocol, "onvif");
    assert_eq!(p.register.external_id, "urn:uuid:1");
    assert_eq!(p.register.name, "Acme X1");
    assert_eq!(p.register.kind, "camera");
    assert_eq!(p.register.capabilities, vec![("onvif".to_string(), true)]);
    assert_eq!(p.source_ip.as_deref(), Some("10.0.0.5"));
    assert_eq!(p.online_reason, "onvif discovery");
    let p = provision_plan(&info("", "", ""), "urn:uuid:2", "not a url");
    assert!(p.source_ip.is_none());
}

#[test]
fn runtime_health_keeps_the_last_status() {
    let mut h = RuntimeHealth::new();
    h.insert("api".to_string(), ComponentStatus::Running);
    h.record_worker_exit(0, Ok(()));
    h.record_worker_exit(1, Err("boom".to_string()));
    h.record_worker_aborted(2);
    h.insert("api".to_string(), ComponentStatus::Stopped);
    assert!(matches!(h.get("api"), Some(ComponentStatus::Stopped)));
    assert!(matches!(h.get("worker-0"), Some(ComponentStatus::Stopped)));
    assert!(matches!(h.get("worker-1"), Some(ComponentStatus::Failed(m)) if m == "boom"));
    assert!(matches!(
        h.get("worker-2"),
        Some(ComponentStatus::Failed(m)) if m == "shutdown deadline exceeded; worker aborted"
    ));
    assert!(h.get("worker-3").is_none());
}

#[test]
fn audit_outcome_fields() {
    assert_eq!(TracingAuditLog::outcome_fields(&AuditOutcome::Success), ("success", None));
    assert_eq!(
        TracingAuditLog::outcome_fields(&AuditOutcome::Denied { reason: "no".to_string() }),
        ("denied", Some("no".to_string()))
    );
}

#[test]
fn generated_identifiers_are_version_7() {
    let g = UuidIdGenerator;
    let v = g.generate();
    assert_eq!((v >> 76) & 0xf, 7);
    assert_eq!((v >> 62) & 3, 2);
    assert_eq!(g.generate_media_node_instance_epoch() >> 62, 2);
}

#[test]
fn discovery_runs_only_with_a_valid_tenant() {
    assert!(matches!(discovery_schedule(false, Some("x"), 0, 4), Err(DiscoverySkip::Disabled)));
    assert!(matches!(discovery_schedule(true, None, 0, 4), Err(DiscoverySkip::MissingTenant)));
    assert!(matches!(discovery_schedule(true, Some("not-a-uuid"), 0, 4), Err(DiscoverySkip::InvalidTenant(_))));
    let s = discovery_schedule(true, Some("67e55044-10b1-426f-9247-bb680e5fe0c8"), 0, 0).unwrap();
    assert_eq!(s.tenant_id, 0x67e5504410b1426f9247bb680e5fe0c8);
    assert!(s.single_sweep);
    assert_eq!(s.max_concurrent_probes, 1);
    let s = discovery_schedule(true, Some("67e55044-10b1-426f-9247-bb680e5fe0c8"), 30_000, 8).unwrap();
    assert!(!s.single_sweep);
    assert_eq!((s.interval_ms, s.max_concurrent_probes), (30_000, 8));
}

#[test]
fn grpc_tls_needs_consistent_references() {
    assert!(grpc_tls_plan(None, None, None).unwrap().is_none());
    assert_eq!(
        grpc_tls_plan(None, Some("k"), Some("ca")).unwrap_err(),
        "grpc.mtls_client_ca_ref requires grpc.tls_cert_ref"
    );
    assert_eq!(
        grpc_tls_plan(Some("c"), None, None).unwrap_err(),
        "grpc.tls_key_ref is required when grpc.tls_cert_ref is set"
    );
    let p = grpc_tls_plan(Some("c"), Some("k"), None).unwrap().unwrap();
    assert_eq!((p.cert_ref.as_str(), p.key_ref.as_str()), ("c", "k"));
    assert!(!p.require_mtls);
    let p = grpc_tls_plan(Some("c"), Some("k"), Some("ca")).unwrap().unwrap();
    assert_eq!(p.client_ca_ref.as_deref(), Some("ca"));
    assert!(p.require_mtls);
}

#[test]
fn only_draining_peers_are_drained() {
    let alive = vec![(1u128, true), (2, false), (3, true), (4, true)];
    assert_eq!(peers_to_drain(&alive, 3), vec![1, 4]);
    assert!(peers_to_drain(&Vec::new(), 1).is_empty());
}

#[test]
fn admission_limits_follow_the_queue_depth() {
    let l = admission_limits(0);
    assert_eq!((l.queue_depth, l.high_watermark, l.low_watermark), (1, 1, 0));
    assert_eq!((l.coalescer_capacity, l.dlq_capacity, l.redrive_batch), (256, 256, 1));
    let l = admission_limits(1000);
    assert_eq!((l.high_watermark, l.low_watermark), (800, 400));
    assert_eq!((l.coalescer_capacity, l.dlq_capacity, l.redrive_batch), (1000, 2000, 64));
}

#[test]
fn dispatch_failures_are_redelivered() {
    assert!(matches!(delivery_reply(&DispatchStage::Undecodable), DeliveryReply::Ack));
    assert!(matches!(delivery_reply(&DispatchStage::NotSubmitted), DeliveryReply::Ack));
    assert!(matches!(delivery_reply(&DispatchStage::Dispatched { ok: true }), DeliveryReply::Ack));
    assert!(matches!(delivery_reply(&DispatchStage::StorageUnavailable), DeliveryReply::Nak(m) if m == "storage begin failed"));
    assert!(matches!(delivery_reply(&DispatchStage::Dispatched { ok: false }), DeliveryReply::Nak(m) if m == "dispatch failed"));
    let p = dispatcher_principal("n1");
    assert_eq!(p.id, "node-n1-operation-dispatcher");
    assert_eq!(p.scopes, vec!["system"]);
}

#[test]
fn cluster_configuration_checks() {
    assert!(check_nats_url("tls://nats:4222").is_ok());
    assert!(check_nats_url("WSS://nats").is_ok());
    assert_eq!(
        check_nats_url("nats://nats:4222").unwrap_err(),
        "messaging.nats_url must use tls:// or wss:// scheme for cluster deployments"
    );
    assert!(check_nats_url("tls").is_ok());
    assert!(check_nats_url("").is_err());
    assert_eq!(lease_ttl_ms(0), 10_000);
    assert_eq!(lease_ttl_ms(5_000), 5_000);
    assert_eq!(renew_interval_ms(10_000), 3_333);
    assert_eq!(renew_interval_ms(300), 333);
    assert_eq!(heartbeat_interval_ms(0), 3_000);
    assert_eq!(listener_tenant("l1", "").unwrap(), None);
    assert_eq!(
        listener_tenant("l1", "67e55044-10b1-426f-9247-bb680e5fe0c8").unwrap(),
        Some(0x67e5504410b1426f9247bb680e5fe0c8)
    );
    assert!(listener_tenant("l1", "bad").unwrap_err().starts_with("gb28181 listener 'l1' tenant_id is not a valid UUID: "));
}
