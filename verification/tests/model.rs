use cheetah_signaling::migration::error::MigrationError;
use cheetah_signaling::migration::model::{
    EntityType, MetadataValue, OldRecord, MAX_MIGRATION_AUTHORITY_BYTES, MAX_MIGRATION_ID_BYTES,
    MAX_MIGRATION_METADATA_KEYS, MAX_MIGRATION_METADATA_VALUE_BYTES, MAX_MIGRATION_NAME_BYTES,
    MAX_MIGRATION_SECRET_FIELDS_BYTES, MAX_MIGRATION_SECRET_FIELDS_COUNT,
};

fn valid_record() -> OldRecord {
    OldRecord {
        entity_type: EntityType::Device,
        tenant_id: "tenant-a".to_string(),
        external_id: "cam-01".to_string(),
        name: "Camera 01".to_string(),
        protocol: "gb28181".to_string(),
        kind: "camera".to_string(),
        authority: "192.0.2.1:5060".to_string(),
        parent_device_id: String::new(),
        channel_kind: String::new(),
        enabled: true,
        metadata: Vec::new(),
        secret_fields: String::new(),
    }
}

fn refusal(r: &OldRecord) -> String {
    match r.validate() {
        Err(MigrationError::InvalidRecord { row, message }) => {
            assert_eq!(row, 0);
            message
        }
        other => panic!("expected an invalid record, got {other:?}"),
    }
}

#[test]
fn valid_record_passes() {
    assert!(valid_record().validate().is_ok());
}

#[test]
fn rejects_oversized_external_id() {
    let mut r = valid_record();
    r.external_id = "x".repeat(MAX_MIGRATION_ID_BYTES + 1);
    assert!(r.validate().is_err());
}

#[test]
fn rejects_oversized_tenant_id() {
    let mut r = valid_record();
    r.tenant_id = "x".repeat(MAX_MIGRATION_ID_BYTES + 1);
    assert!(r.validate().is_err());
}

#[test]
fn rejects_oversized_parent_device_id() {
    let mut r = valid_record();
    r.entity_type = EntityType::Channel;
    r.parent_device_id = "x".repeat(MAX_MIGRATION_ID_BYTES + 1);
    assert!(r.validate().is_err());
}

#[test]
fn rejects_oversized_name() {
    let mut r = valid_record();
    r.name = "x".repeat(MAX_MIGRATION_NAME_BYTES + 1);
    assert!(r.validate().is_err());
}

#[test]
fn rejects_oversized_authority() {
    let mut r = valid_record();
    r.authority = "x".repeat(MAX_MIGRATION_AUTHORITY_BYTES + 1);
    assert!(r.validate().is_err());
}

#[test]
fn rejects_oversized_secret_fields() {
    let mut r = valid_record();
    r.secret_fields = "x".repeat(MAX_MIGRATION_SECRET_FIELDS_BYTES + 1);
    assert!(r.validate().is_err());
}

#[test]
fn rejects_too_many_secret_field_names() {
    let mut r = valid_record();
    let names: Vec<String> = (0..=MAX_MIGRATION_SECRET_FIELDS_COUNT).map(|i| format!("field{i}")).collect();
    r.secret_fields = names.join(",");
    assert!(r.validate().is_err());
}

#[test]
fn rejects_too_many_metadata_keys() {
    let mut r = valid_record();
    for i in 0..=MAX_MIGRATION_METADATA_KEYS {
        r.metadata.push((format!("key{i}"), MetadataValue::Text("value".to_string())));
    }
    assert!(r.validate().is_err());
}

#[test]
fn rejects_oversized_metadata_value() {
    let mut r = valid_record();
    r.metadata.push((
        "note".to_string(),
        MetadataValue::Text("x".repeat(MAX_MIGRATION_METADATA_VALUE_BYTES + 1)),
    ));
    assert!(r.validate().is_err());
}

#[test]
fn rejects_non_scalar_metadata_value() {
    let mut r = valid_record();
    r.metadata.push(("nested".to_string(), MetadataValue::Object("{\"a\":1}".to_string())));
    assert!(r.validate().is_err());
}

#[test]
fn id_at_the_byte_limit_is_accepted() {
    let mut r = valid_record();
    r.external_id = "x".repeat(MAX_MIGRATION_ID_BYTES);
    assert!(r.validate().is_ok());
}

#[test]
fn multibyte_id_is_measured_in_bytes() {
    let mut r = valid_record();
    // 129 two-byte characters: 258 bytes for 129 characters.
    r.external_id = "é".repeat(129);
    assert_eq!(refusal(&r), "external_id exceeds maximum length");
}

#[test]
fn first_failing_check_is_reported() {
    let mut r = valid_record();
    r.name = "x".repeat(MAX_MIGRATION_NAME_BYTES + 1);
    r.tenant_id = "x".repeat(MAX_MIGRATION_ID_BYTES + 1);
    assert_eq!(refusal(&r), "tenant_id exceeds maximum length");
}

#[test]
fn secret_field_count_at_limit_is_accepted() {
    let mut r = valid_record();
    let names: Vec<String> = (0..MAX_MIGRATION_SECRET_FIELDS_COUNT).map(|i| format!("f{i}")).collect();
    r.secret_fields = names.join(",");
    assert!(r.validate().is_ok());
}

#[test]
fn secret_field_names_are_trimmed_and_blank_ones_dropped() {
    let mut r = valid_record();
    r.secret_fields = " password , ,token,".to_string();
    assert_eq!(r.secret_field_names(), vec!["password".to_string(), "token".to_string()]);
    assert!(r.has_secret());
    r.secret_fields = " , ".to_string();
    assert!(!r.has_secret());
}

#[test]
fn scalar_metadata_values_are_accepted() {
    let mut r = valid_record();
    r.metadata.push(("a".to_string(), MetadataValue::Bool(true)));
    r.metadata.push(("b".to_string(), MetadataValue::Null));
    r.metadata.push(("c".to_string(), MetadataValue::Number("1.5".to_string())));
    r.metadata.push(("d".to_string(), MetadataValue::Text("x".to_string())));
    assert!(r.validate().is_ok());
}

#[test]
fn array_metadata_value_is_refused() {
    let mut r = valid_record();
    r.metadata.push(("list".to_string(), MetadataValue::Array("[1]".to_string())));
    assert_eq!(refusal(&r), "metadata value exceeds maximum length or is not a scalar");
}

#[test]
fn oversized_metadata_key_is_refused() {
    let mut r = valid_record();
    r.metadata.push(("k".repeat(129), MetadataValue::Null));
    assert_eq!(refusal(&r), "metadata key exceeds maximum length");
}
