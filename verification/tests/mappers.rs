use cheetah_signaling::migration::error::MigrationError;
use cheetah_signaling::migration::mappers::{
    map_record, parse_channel_kind, parse_device_kind, parse_protocol, stable_device_id, ChannelKind,
    DeviceKind, MappedAggregate, ParentProtocols, Protocol, ResourceKind,
};
use cheetah_signaling::migration::model::{EntityType, MetadataValue, OldRecord};

fn record(entity_type: EntityType, external_id: &str, tenant_id: &str) -> OldRecord {
    OldRecord {
        entity_type,
        tenant_id: tenant_id.to_string(),
        external_id: external_id.to_string(),
        name: "Test".to_string(),
        protocol: "gb28181".to_string(),
        kind: "camera".to_string(),
        authority: "192.0.2.1:5060".to_string(),
        parent_device_id: String::new(),
        channel_kind: String::new(),
        enabled: true,
        metadata: vec![("location".to_string(), MetadataValue::Text("hallway".to_string()))],
        secret_fields: String::new(),
    }
}

fn meta<'a>(m: &'a [(String, String)], key: &str) -> Option<&'a str> {
    m.iter().find(|(k, _)| k == key).map(|(_, v)| v.as_str())
}

fn text(s: &str) -> MetadataValue {
    MetadataValue::Text(s.to_string())
}

#[test]
fn map_device_creates_deterministic_id() -> Result<(), MigrationError> {
    let mut r = record(EntityType::Device, "cam-01", "tenant-a");
    r.parent_device_id = "cam-01".to_string();
    let entity = map_record(&r, &ParentProtocols::new())?;
    match entity.entity {
        MappedAggregate::Device(d) => {
            assert_eq!(d.external_id.as_str(), "cam-01");
            assert_eq!(d.name, "Test");
            assert_eq!(d.kind, DeviceKind::Camera);
            assert_eq!(meta(&d.metadata, "location"), Some("hallway"));
            let id = d.device_id;
            let entity2 = map_record(&r, &ParentProtocols::new())?;
            match entity2.entity {
                MappedAggregate::Device(d2) => assert_eq!(d2.device_id, id),
                _ => panic!("expected device"),
            }
        }
        _ => panic!("expected device aggregate"),
    }
    Ok(())
}

#[test]
fn map_device_with_secret_emits_action() -> Result<(), MigrationError> {
    let mut r = record(EntityType::Device, "cam-02", "tenant-a");
    r.secret_fields = "password,api_key".to_string();
    let entity = map_record(&r, &ParentProtocols::new())?;
    assert!(!entity.actions.is_empty());
    assert!(entity.actions[0].contains("password"));
    assert!(entity.actions[0].contains("api_key"));
    Ok(())
}

#[test]
fn map_device_with_secret_excludes_secret_from_metadata() -> Result<(), MigrationError> {
    let mut r = record(EntityType::Device, "cam-02", "tenant-a");
    r.parent_device_id = "cam-02".to_string();
    r.secret_fields = "password,api_key".to_string();
    r.metadata = vec![
        ("api_key".to_string(), text("abc")),
        ("location".to_string(), text("hallway")),
        ("note".to_string(), text("keep me")),
        ("password".to_string(), text("hunter2")),
    ];
    let entity = map_record(&r, &ParentProtocols::new())?;
    match entity.entity {
        MappedAggregate::Device(d) => {
            assert!(meta(&d.metadata, "password").is_none());
            assert!(meta(&d.metadata, "api_key").is_none());
            assert_eq!(meta(&d.metadata, "note"), Some("keep me"));
        }
        _ => panic!("expected device aggregate"),
    }
    Ok(())
}

#[test]
fn map_channel_requires_parent() {
    let mut r = record(EntityType::Channel, "ch-01", "tenant-a");
    r.parent_device_id = String::new();
    assert!(map_record(&r, &ParentProtocols::new()).is_err());
}

#[test]
fn map_channel_with_secret_emits_action_and_excludes_secret() -> Result<(), MigrationError> {
    let mut r = record(EntityType::Channel, "ch-02", "tenant-a");
    r.parent_device_id = "cam-01".to_string();
    r.secret_fields = "stream_key".to_string();
    r.metadata.push(("stream_key".to_string(), text("topsecret")));
    let entity = map_record(&r, &ParentProtocols::new())?;
    match entity.entity {
        MappedAggregate::Channel(c) => {
            assert!(meta(&c.metadata, "stream_key").is_none());
        }
        _ => panic!("expected channel aggregate"),
    }
    assert!(!entity.actions.is_empty());
    assert!(entity.actions[0].contains("stream_key"));
    Ok(())
}

#[test]
fn map_channel_uses_parent_device_protocol() -> Result<(), MigrationError> {
    let mut device = record(EntityType::Device, "cam-01", "tenant-a");
    device.protocol = "onvif".to_string();
    device.kind = "camera".to_string();
    let mut parent_protocols = ParentProtocols::new();
    let device_entity = map_record(&device, &parent_protocols)?;
    let parent_device_id = match device_entity.entity {
        MappedAggregate::Device(d) => d.device_id,
        _ => panic!("expected device aggregate"),
    };
    parent_protocols.insert("tenant-a".to_string(), "cam-01".to_string(), Protocol::Onvif);

    let mut channel = record(EntityType::Channel, "ch-01", "tenant-a");
    channel.parent_device_id = "cam-01".to_string();
    channel.protocol = "".to_string();
    let channel_entity = map_record(&channel, &parent_protocols)?;
    match channel_entity.entity {
        MappedAggregate::Channel(c) => assert_eq!(c.device_id, parent_device_id),
        _ => panic!("expected channel aggregate"),
    }
    Ok(())
}

#[test]
fn device_id_depends_on_tenant_external_id_and_protocol() {
    let a = stable_device_id("tenant-a", "cam-01", Protocol::Gb28181);
    assert_eq!(a, stable_device_id("tenant-a", "cam-01", Protocol::Gb28181));
    assert_ne!(a, stable_device_id("tenant-b", "cam-01", Protocol::Gb28181));
    assert_ne!(a, stable_device_id("tenant-a", "cam-02", Protocol::Gb28181));
    assert_ne!(a, stable_device_id("tenant-a", "cam-01", Protocol::Onvif));
    // A name-based UUID carries version 5 and the RFC 4122 variant.
    assert_eq!(a[6] >> 4, 5);
    assert_eq!(a[8] >> 6, 2);
}

#[test]
fn unknown_protocol_is_refused() {
    assert!(parse_protocol("carrier-pigeon").is_err());
    assert_eq!(parse_protocol("GB28181").unwrap(), Protocol::Gb28181);
    assert_eq!(parse_protocol("onvif").unwrap(), Protocol::Onvif);
}

#[test]
fn kinds_parse_with_defaults() {
    assert_eq!(parse_device_kind("nvr", EntityType::Device), DeviceKind::Nvr);
    assert_eq!(parse_channel_kind("ptz"), ChannelKind::Ptz);
}

#[test]
fn channel_without_known_parent_uses_own_protocol() -> Result<(), MigrationError> {
    let mut channel = record(EntityType::Channel, "ch-01", "tenant-a");
    channel.parent_device_id = "cam-01".to_string();
    let entity = map_record(&channel, &ParentProtocols::new())?;
    match entity.entity {
        MappedAggregate::Channel(c) => {
            assert_eq!(c.device_id, stable_device_id("tenant-a", "cam-01", Protocol::Gb28181));
        }
        _ => panic!("expected channel aggregate"),
    }
    Ok(())
}

#[test]
fn device_without_external_id_is_refused() {
    let r = record(EntityType::Device, "", "tenant-a");
    assert!(map_record(&r, &ParentProtocols::new()).is_err());
}

#[test]
fn tenant_and_secret_reference_records_map_to_placeholders() -> Result<(), MigrationError> {
    let r = record(EntityType::Tenant, "t", "tenant-a");
    assert!(matches!(map_record(&r, &ParentProtocols::new())?.entity, MappedAggregate::Tenant));
    let r = record(EntityType::SecretReference, "s", "tenant-a");
    assert!(matches!(map_record(&r, &ParentProtocols::new())?.entity, MappedAggregate::SecretReference));
    Ok(())
}

#[test]
fn mapped_aggregates_carry_their_creation_event() -> Result<(), MigrationError> {
    let device = record(EntityType::Device, "cam-01", "tenant-a");
    let entity = map_record(&device, &ParentProtocols::new())?;
    assert_eq!(entity.events.len(), 1);
    match entity.entity {
        MappedAggregate::Device(d) => {
            assert_eq!(entity.events[0].kind, ResourceKind::Device);
            assert_eq!(entity.events[0].resource_id, d.device_id);
            assert_eq!(entity.events[0].tenant_id, d.tenant_id);
            assert_eq!(entity.events[0].aggregate_sequence, 0);
        }
        _ => panic!("expected a device"),
    }
    let mut channel = record(EntityType::Channel, "ch-01", "tenant-a");
    channel.parent_device_id = "cam-01".to_string();
    let entity = map_record(&channel, &ParentProtocols::new())?;
    match entity.entity {
        MappedAggregate::Channel(c) => {
            assert_eq!(entity.events.len(), 1);
            assert_eq!(entity.events[0].kind, ResourceKind::Channel);
            assert_eq!(entity.events[0].resource_id, c.channel_id);
        }
        _ => panic!("expected a channel"),
    }
    let tenant = record(EntityType::Tenant, "tenant-a", "tenant-a");
    assert!(map_record(&tenant, &ParentProtocols::new())?.events.is_empty());
    Ok(())
}
