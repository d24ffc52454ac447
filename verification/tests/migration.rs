use cheetah_signaling::migration::error::MigrationError;
use cheetah_signaling::migration::importer::{
    build_parent_protocols, flushed_events, parse_cutover_list, plan_import, ImportOptions,
};
use cheetah_signaling::migration::mappers::{Protocol, ResourceKind};
use cheetah_signaling::migration::model::{EntityType, MetadataValue, OldRecord};
use cheetah_signaling::migration::source::{drop_blank_rows, FileSource, SourceFormat};

fn device_record(external_id: &str, tenant_id: &str) -> OldRecord {
    OldRecord {
        entity_type: EntityType::Device,
        tenant_id: tenant_id.to_string(),
        external_id: external_id.to_string(),
        name: "Cam".to_string(),
        protocol: "gb28181".to_string(),
        kind: "camera".to_string(),
        authority: "192.0.2.1:5060".to_string(),
        parent_device_id: external_id.to_string(),
        channel_kind: String::new(),
        enabled: true,
        metadata: vec![("location".to_string(), MetadataValue::Text("hallway".to_string()))],
        secret_fields: String::new(),
    }
}

fn channel_record(external_id: &str, parent_device_id: &str, tenant_id: &str) -> OldRecord {
    OldRecord {
        entity_type: EntityType::Channel,
        tenant_id: tenant_id.to_string(),
        external_id: external_id.to_string(),
        name: "Channel".to_string(),
        protocol: "gb28181".to_string(),
        kind: String::new(),
        authority: String::new(),
        parent_device_id: parent_device_id.to_string(),
        channel_kind: "video".to_string(),
        enabled: true,
        metadata: Vec::new(),
        secret_fields: String::new(),
    }
}

#[test]
fn dry_run_reports_imported_count() {
    let options = ImportOptions { dry_run: true, checkpoint_every: 10, ..Default::default() };
    let plan = plan_import(&vec![device_record("cam-01", "tenant-a")], &options, &Vec::new()).unwrap();
    assert_eq!(plan.result.records_read, 1);
    assert_eq!(plan.result.records_imported, 1);
}

#[test]
fn checkpoint_zero_is_rejected() {
    let options = ImportOptions { checkpoint_every: 0, ..Default::default() };
    let outcome = plan_import(&Vec::new(), &options, &Vec::new());
    assert!(outcome.is_err());
    match outcome {
        Err(MigrationError::Other(_)) => {}
        _ => panic!("expected MigrationError::Other"),
    }
}

#[test]
fn default_options() {
    let o = ImportOptions::default();
    assert_eq!(o.checkpoint_every, 100);
    assert!(o.cutover_ids.is_empty());
    assert!(!o.dry_run);
    assert!(o.skip_existing);
}

#[test]
fn plan_counts_skipped_invalid_and_secret_records() {
    let mut secret = device_record("cam-02", "tenant-a");
    secret.secret_fields = "password".to_string();
    let mut bad = device_record("cam-03", "tenant-a");
    bad.protocol = "smoke-signal".to_string();
    let records = vec![
        device_record("cam-01", "tenant-a"),
        secret,
        bad,
        channel_record("ch-01", "cam-01", "tenant-a"),
        device_record("cam-09", "tenant-a"),
    ];
    let options = ImportOptions {
        cutover_ids: vec!["cam-01".to_string(), "cam-02".to_string(), "cam-03".to_string(), "ch-01".to_string()],
        ..Default::default()
    };
    let plan = plan_import(&records, &options, &Vec::new()).unwrap();
    let r = &plan.result;
    assert_eq!(r.records_read, 5);
    assert_eq!(r.records_skipped, 1);
    assert_eq!(r.records_invalid, 1);
    assert_eq!(r.records_with_secrets, 1);
    assert_eq!(r.records_imported, 0);
    assert_eq!(r.action_items.len(), 1);
    assert!(r.action_items[0].contains("password"));
    assert_eq!(r.counts_by_kind, vec![(EntityType::Channel, 1), (EntityType::Device, 2)]);
    assert_eq!(plan.devices.len(), 2);
    assert_eq!(plan.channels.len(), 1);
    assert_eq!(plan.channels[0].device_id, plan.devices[0].device_id);
}

#[test]
fn flush_counts_written_and_skipped_existing() {
    let options = ImportOptions { checkpoint_every: 10, ..Default::default() };
    let mut plan = plan_import(&vec![device_record("cam-01", "tenant-a")], &options, &Vec::new()).unwrap();
    plan.result.record_flush(&vec![false, true, false], true);
    assert_eq!(plan.result.records_imported, 2);
    assert_eq!(plan.result.records_skipped_existing, 1);
    plan.result.record_flush(&vec![true, true], false);
    assert_eq!(plan.result.records_imported, 4);
    assert_eq!(plan.result.records_skipped_existing, 1);
    assert_eq!(plan.result.records_conflicting, 0);
}

#[test]
fn import_skip_existing_counts_skipped_existing() {
    let record = device_record("cam-01", "tenant-a");
    let options = ImportOptions { dry_run: false, checkpoint_every: 10, ..Default::default() };
    let mut first = plan_import(&vec![record.clone()], &options, &Vec::new()).unwrap();
    assert_eq!(first.devices.len(), 1);
    first.result.record_flush(&vec![false], options.skip_existing);
    assert_eq!(first.result.records_imported, 1);
    let mut second = plan_import(&vec![record], &options, &Vec::new()).unwrap();
    second.result.record_flush(&vec![true], options.skip_existing);
    assert_eq!(second.result.records_imported, 0);
    assert_eq!(second.result.records_skipped_existing, 1);
    assert_eq!(second.result.records_conflicting, 0);
}

#[test]
fn import_overwrites_existing_when_skip_existing_false() {
    let mut record = device_record("cam-01", "tenant-a");
    record.name = "first".to_string();
    let options = ImportOptions { dry_run: false, checkpoint_every: 10, ..Default::default() };
    let mut first = plan_import(&vec![record.clone()], &options, &Vec::new()).unwrap();
    first.result.record_flush(&vec![false], options.skip_existing);
    assert_eq!(first.result.records_imported, 1);
    record.name = "second".to_string();
    let options = ImportOptions { dry_run: false, skip_existing: false, checkpoint_every: 10, ..Default::default() };
    let mut second = plan_import(&vec![record], &options, &Vec::new()).unwrap();
    assert_eq!(second.devices[0].name, "second");
    second.result.record_flush(&vec![true], options.skip_existing);
    assert_eq!(second.result.records_imported, 1);
    assert_eq!(second.result.records_conflicting, 0);
}

#[test]
fn parent_protocols_come_from_valid_device_records() {
    let mut onvif = device_record("cam-02", "tenant-a");
    onvif.protocol = "ONVIF".to_string();
    let mut bad = device_record("cam-03", "tenant-a");
    bad.external_id = "x".repeat(300);
    let parents = build_parent_protocols(&vec![
        device_record("cam-01", "tenant-a"),
        onvif,
        bad,
        channel_record("ch-01", "cam-01", "tenant-a"),
    ]);
    assert_eq!(parents.get("tenant-a", "cam-01"), Some(Protocol::Gb28181));
    assert_eq!(parents.get("tenant-a", "cam-02"), Some(Protocol::Onvif));
    assert_eq!(parents.get("tenant-b", "cam-01"), None);
    assert_eq!(parents.get("tenant-a", "ch-01"), None);
}

#[test]
fn source_format_names_and_extensions() {
    assert_eq!(SourceFormat::parse("JSON").unwrap(), SourceFormat::Json);
    assert_eq!("csv".parse::<SourceFormat>().unwrap(), SourceFormat::Csv);
    match SourceFormat::parse("xml") {
        Err(MigrationError::Other(m)) => assert_eq!(m, "unknown source format: xml"),
        other => panic!("unexpected {other:?}"),
    }
    assert_eq!(FileSource::infer_format("/data/export.json"), SourceFormat::Json);
    assert_eq!(FileSource::infer_format("/data/export.csv"), SourceFormat::Csv);
    assert_eq!(FileSource::infer_format("/data/export"), SourceFormat::Csv);
    let s = FileSource::new("a.json", Some(SourceFormat::Csv)).unwrap();
    assert_eq!(s.path(), "a.json");
    assert_eq!(s.format(), SourceFormat::Csv);
}

#[test]
fn blank_csv_rows_are_dropped() {
    let rows = vec![device_record("cam-01", "t"), OldRecord::default(), device_record("cam-02", "t")];
    let out = drop_blank_rows(rows);
    let ids: Vec<&str> = out.iter().map(|r| r.external_id.as_str()).collect();
    assert_eq!(ids, vec!["cam-01", "cam-02"]);
}

#[test]
fn dry_run_counts_missing_channel_parent_as_invalid() {
    let options = ImportOptions { dry_run: true, checkpoint_every: 10, ..Default::default() };
    let plan = plan_import(&vec![channel_record("ch-01", "missing-cam", "tenant-a")], &options, &Vec::new()).unwrap();
    assert_eq!(plan.result.records_read, 1);
    assert_eq!(plan.result.records_imported, 0);
    assert_eq!(plan.result.records_invalid, 1);
}

#[test]
fn dry_run_uses_local_parent_device_in_same_batch() {
    let options = ImportOptions { dry_run: true, checkpoint_every: 10, ..Default::default() };
    let records = vec![device_record("cam-01", "tenant-a"), channel_record("ch-01", "cam-01", "tenant-a")];
    let plan = plan_import(&records, &options, &Vec::new()).unwrap();
    assert_eq!(plan.result.records_read, 2);
    assert_eq!(plan.result.records_imported, 2);
    assert_eq!(plan.result.records_invalid, 0);
}

#[test]
fn dry_run_queries_database_when_storage_available() {
    let options = ImportOptions { dry_run: true, checkpoint_every: 10, ..Default::default() };
    let stored = vec![("tenant-a".to_string(), "runtime-cam".to_string())];
    let plan = plan_import(&vec![channel_record("ch-01", "runtime-cam", "tenant-a")], &options, &stored).unwrap();
    assert_eq!(plan.result.records_read, 1);
    assert_eq!(plan.result.records_imported, 1);
    assert_eq!(plan.result.records_invalid, 0);
}

#[test]
fn stored_parent_of_another_tenant_does_not_count() {
    let options = ImportOptions { dry_run: true, checkpoint_every: 10, ..Default::default() };
    let stored = vec![("tenant-b".to_string(), "runtime-cam".to_string())];
    let plan = plan_import(&vec![channel_record("ch-01", "runtime-cam", "tenant-a")], &options, &stored).unwrap();
    assert_eq!(plan.result.records_invalid, 1);
}

#[test]
fn import_appends_domain_events_to_outbox() {
    let options = ImportOptions { dry_run: false, checkpoint_every: 10, ..Default::default() };
    let mut plan = plan_import(&vec![device_record("cam-01", "tenant-a")], &options, &Vec::new()).unwrap();
    assert_eq!(plan.result.records_read, 1);
    let existing = vec![false];
    plan.result.record_flush(&existing, options.skip_existing);
    assert_eq!(plan.result.records_imported, 1);
    let events = flushed_events(&plan.device_events, &existing, options.skip_existing);
    assert_eq!(events.len(), 1);
    assert_eq!(events[0].kind, ResourceKind::Device);
    assert_eq!(events[0].resource_id, plan.devices[0].device_id);
    assert_eq!(events[0].tenant_id, plan.devices[0].tenant_id);
    assert_eq!(events[0].aggregate_sequence, 0);
}

#[test]
fn plan_pairs_each_aggregate_with_its_event() {
    let options = ImportOptions { dry_run: false, checkpoint_every: 10, ..Default::default() };
    let records = vec![device_record("cam-01", "tenant-a"), channel_record("ch-01", "cam-01", "tenant-a")];
    let plan = plan_import(&records, &options, &Vec::new()).unwrap();
    assert_eq!(plan.device_events.len(), 1);
    assert_eq!(plan.channel_events.len(), 1);
    assert_eq!(plan.channel_events[0].kind, ResourceKind::Channel);
    assert_eq!(plan.channel_events[0].resource_id, plan.channels[0].channel_id);
    assert_eq!(plan.result.records_imported, 0);
}

#[test]
fn skipped_existing_aggregates_append_no_event() {
    let options = ImportOptions { dry_run: false, checkpoint_every: 10, ..Default::default() };
    let records = vec![device_record("cam-01", "tenant-a"), device_record("cam-02", "tenant-a")];
    let plan = plan_import(&records, &options, &Vec::new()).unwrap();
    let existing = vec![true, false];
    let kept = flushed_events(&plan.device_events, &existing, true);
    assert_eq!(kept.len(), 1);
    assert_eq!(kept[0].resource_id, plan.devices[1].device_id);
    assert_eq!(flushed_events(&plan.device_events, &existing, false).len(), 2);
}

#[test]
fn dry_run_counts_every_mapped_record_as_imported() {
    let mut tenant = device_record("tenant-a", "tenant-a");
    tenant.entity_type = EntityType::Tenant;
    let mut unknown = device_record("x-1", "tenant-a");
    unknown.entity_type = EntityType::Unknown;
    let options = ImportOptions { dry_run: true, checkpoint_every: 10, ..Default::default() };
    let plan = plan_import(&vec![device_record("cam-01", "tenant-a"), tenant, unknown], &options, &Vec::new()).unwrap();
    assert_eq!(plan.result.records_read, 3);
    assert_eq!(plan.result.records_imported, 3);
    assert_eq!(
        plan.result.records_skipped + plan.result.records_invalid + plan.result.records_imported,
        plan.result.records_read
    );
    assert_eq!(plan.devices.len(), 1);
}

#[test]
fn cutover_list_trims_skips_comments_and_repeats() {
    let ids = parse_cutover_list("  cam-01 \n# comment\n\ncam-02\r\ncam-01\n  # also a comment\n");
    assert_eq!(ids, vec!["cam-01".to_string(), "cam-02".to_string()]);
    assert!(parse_cutover_list("").is_empty());
    assert_eq!(parse_cutover_list("dev-9"), vec!["dev-9".to_string()]);
}
