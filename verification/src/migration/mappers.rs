//! Mapping from old-system records to the aggregates the importer writes.
use crate::migration::error::{is_invalid_record, MigrationError};
use crate::migration::model::{
    secret_names, EntityType, MetadataValue, OldRecord,
};
use crate::text::{
    ascii_lower, copy_str, eq_ignore_case, join, join_strings, push_str, str_eq, str_eq_ignore_case,
    strings_view,
};
use vstd::prelude::*;
use vstd::utf8::encode_utf8;

verus! {

/// Protocol spoken by a device.
#[derive(Clone, Copy, Debug, PartialEq, Eq, Structural)]
pub enum Protocol {
    /// GB/T 28181.
    Gb28181,
    /// ONVIF.
    Onvif,
    /// MQTT.
    Mqtt,
    /// JT/T 808.
    Jt808,
    /// Hikvision ISUP.
    Isup,
    /// A protocol provided by a plugin.
    Plugin,
    /// Unknown protocol.
    Unknown,
}

/// Kind of a device.
#[derive(Clone, Copy, Debug, PartialEq, Eq, Structural)]
pub enum DeviceKind {
    /// IP camera.
    Camera,
    /// Network video recorder.
    Nvr,
    /// Digital video recorder.
    Dvr,
    /// Video encoder.
    Encoder,
    /// IoT device.
    Iot,
    /// Cascaded platform.
    Platform,
    /// Unknown kind.
    Unknown,
}

/// Kind of a channel.
#[derive(Clone, Copy, Debug, PartialEq, Eq, Structural)]
pub enum ChannelKind {
    /// Video channel.
    Video,
    /// Audio channel.
    Audio,
    /// Pan-tilt-zoom channel.
    Ptz,
    /// Organisation node of a catalog.
    Organization,
    /// Event / alarm channel.
    Event,
    /// I/O channel.
    Io,
}

/// Name of the bytes of the UUID that `uuid::Uuid::new_v5` derives from a
/// namespace and a name (SHA-1 name-based UUID, RFC 4122 version 5).
pub uninterp spec fn uuid_v5(namespace: Seq<u8>, name: Seq<u8>) -> Seq<u8>;

/// Calls `uuid::Uuid::new_v5` on the namespace given by its bytes and returns
/// the bytes of the result; the result is believed to be `uuid_v5` of the
/// arguments, nothing more.
#[verifier::external_body]
fn new_v5(namespace: [u8; 16], name: &[u8]) -> (r: [u8; 16])
    ensures
        r@ == uuid_v5(namespace@, name@),
{
    uuid::Uuid::new_v5(&uuid::Uuid::from_bytes(namespace), name).into_bytes()
}

/// Bytes of the namespace used for deterministic v5 UUIDs derived from
/// old-system identifiers.
pub open spec fn migration_namespace() -> Seq<u8> {
    seq![
        0x1au8, 0x2b, 0x3c, 0x4d, 0x5e, 0x6f, 0x70, 0x81, 0x92, 0xa3, 0xb4, 0xc5, 0xd6, 0xe7, 0xf8,
        0x09,
    ]
}

fn namespace_bytes() -> (r: [u8; 16])
    ensures
        r@ == migration_namespace(),
{
    let r: [u8; 16] = [
        0x1a, 0x2b, 0x3c, 0x4d, 0x5e, 0x6f, 0x70, 0x81, 0x92, 0xa3, 0xb4, 0xc5, 0xd6, 0xe7, 0xf8,
        0x09,
    ];
    assert(r@ =~= migration_namespace());
    r
}

/// Stable identifier of an old-system name: the v5 UUID of its UTF-8 bytes.
pub open spec fn stable_id(input: Seq<char>) -> Seq<u8> {
    uuid_v5(migration_namespace(), encode_utf8(input))
}

/// Name of a protocol in stable identifiers.
pub open spec fn protocol_text(p: Protocol) -> Seq<char> {
    match p {
        Protocol::Gb28181 => "gb28181"@,
        Protocol::Onvif => "onvif"@,
        Protocol::Mqtt => "mqtt"@,
        Protocol::Jt808 => "jt808"@,
        Protocol::Isup => "isup"@,
        Protocol::Plugin => "plugin"@,
        Protocol::Unknown => "unknown"@,
    }
}

/// Input of the stable identifier of a device.
pub open spec fn device_id_input(tenant: Seq<char>, external: Seq<char>, p: Protocol) -> Seq<char> {
    tenant + ":"@ + external + ":"@ + protocol_text(p)
}

/// Input of the stable identifier of a channel.
pub open spec fn channel_id_input(
    tenant: Seq<char>,
    device: Seq<char>,
    channel: Seq<char>,
    p: Protocol,
) -> Seq<char> {
    tenant + ":"@ + device + ":"@ + channel + ":"@ + protocol_text(p)
}

/// Name of a protocol in stable identifiers.
pub fn protocol_name(protocol: Protocol) -> (s: &'static str)
    ensures
        s@ == protocol_text(protocol),
{
    match protocol {
        Protocol::Gb28181 => "gb28181",
        Protocol::Onvif => "onvif",
        Protocol::Mqtt => "mqtt",
        Protocol::Jt808 => "jt808",
        Protocol::Isup => "isup",
        Protocol::Plugin => "plugin",
        Protocol::Unknown => "unknown",
    }
}

fn stable_id_of(input: &String) -> (r: [u8; 16])
    ensures
        r@ == stable_id(input@),
{
    let ns = namespace_bytes();
    new_v5(ns, input.as_str().as_bytes())
}

/// Derives a deterministic tenant identifier from the old-system tenant name.
pub fn stable_tenant_id(name: &str) -> (r: [u8; 16])
    ensures
        r@ == stable_id(name@),
{
    stable_id_of(&copy_str(name))
}

/// Derives a deterministic device identifier from tenant, external identity
/// and protocol.
pub fn stable_device_id(tenant_id: &str, external_id: &str, protocol: Protocol) -> (r: [u8; 16])
    ensures
        r@ == stable_id(device_id_input(tenant_id@, external_id@, protocol)),
{
    let mut s = copy_str(tenant_id);
    push_str(&mut s, ":");
    push_str(&mut s, external_id);
    push_str(&mut s, ":");
    push_str(&mut s, protocol_name(protocol));
    stable_id_of(&s)
}

/// Derives a deterministic channel identifier from tenant, device, channel
/// and protocol.
pub fn stable_channel_id(
    tenant_id: &str,
    device_external_id: &str,
    channel_external_id: &str,
    protocol: Protocol,
) -> (r: [u8; 16])
    ensures
        r@ == stable_id(
            channel_id_input(tenant_id@, device_external_id@, channel_external_id@, protocol),
        ),
{
    let mut s = copy_str(tenant_id);
    push_str(&mut s, ":");
    push_str(&mut s, device_external_id);
    push_str(&mut s, ":");
    push_str(&mut s, channel_external_id);
    push_str(&mut s, ":");
    push_str(&mut s, protocol_name(protocol));
    stable_id_of(&s)
}

/// The protocol named by `v`, compared without regard to case; the empty
/// name means GB/T 28181.
///
/// None of the names holds a `k`, so comparing ASCII case-insensitively is
/// the same as comparing the Unicode lowercase of `v`.
pub open spec fn protocol_of(v: Seq<char>) -> Option<Protocol> {
    if eq_ignore_case(v, "gb28181"@) {
        Some(Protocol::Gb28181)
    } else if eq_ignore_case(v, "onvif"@) {
        Some(Protocol::Onvif)
    } else if eq_ignore_case(v, "mqtt"@) {
        Some(Protocol::Mqtt)
    } else if eq_ignore_case(v, "jt808"@) {
        Some(Protocol::Jt808)
    } else if eq_ignore_case(v, "isup"@) {
        Some(Protocol::Isup)
    } else if v.len() == 0 {
        Some(Protocol::Gb28181)
    } else {
        None
    }
}

/// Parses a protocol name.
pub fn parse_protocol(value: &str) -> (r: Result<Protocol, MigrationError>)
    ensures
        r matches Ok(p) ==> protocol_of(value@) == Some(p),
        r matches Err(e) ==> protocol_of(value@) is None && is_invalid_record(
            e,
            "unknown protocol: "@ + value@,
        ),
{
    if str_eq_ignore_case(value, "gb28181") {
        Ok(Protocol::Gb28181)
    } else if str_eq_ignore_case(value, "onvif") {
        Ok(Protocol::Onvif)
    } else if str_eq_ignore_case(value, "mqtt") {
        Ok(Protocol::Mqtt)
    } else if str_eq_ignore_case(value, "jt808") {
        Ok(Protocol::Jt808)
    } else if str_eq_ignore_case(value, "isup") {
        Ok(Protocol::Isup)
    } else if value.is_empty() {
        Ok(Protocol::Gb28181)
    } else {
        let mut m = copy_str("unknown protocol: ");
        push_str(&mut m, value);
        Err(MigrationError::InvalidRecord { row: 0, message: m })
    }
}

/// The device kind named by `v` (case-insensitive), falling back on the
/// entity type: platforms for GB/T 28181 platforms, cameras otherwise.
pub open spec fn device_kind_of(v: Seq<char>, entity_type: EntityType) -> DeviceKind {
    if eq_ignore_case(v, "camera"@) {
        DeviceKind::Camera
    } else if eq_ignore_case(v, "nvr"@) {
        DeviceKind::Nvr
    } else if eq_ignore_case(v, "dvr"@) {
        DeviceKind::Dvr
    } else if eq_ignore_case(v, "encoder"@) {
        DeviceKind::Encoder
    } else if eq_ignore_case(v, "iot"@) {
        DeviceKind::Iot
    } else if eq_ignore_case(v, "platform"@) {
        DeviceKind::Platform
    } else if entity_type == EntityType::Gb28181Platform {
        DeviceKind::Platform
    } else {
        DeviceKind::Camera
    }
}

/// Parses a device kind.
pub fn parse_device_kind(value: &str, entity_type: EntityType) -> (k: DeviceKind)
    ensures
        k == device_kind_of(value@, entity_type),
{
    if str_eq_ignore_case(value, "camera") {
        DeviceKind::Camera
    } else if str_eq_ignore_case(value, "nvr") {
        DeviceKind::Nvr
    } else if str_eq_ignore_case(value, "dvr") {
        DeviceKind::Dvr
    } else if str_eq_ignore_case(value, "encoder") {
        DeviceKind::Encoder
    } else if str_eq_ignore_case(value, "iot") {
        DeviceKind::Iot
    } else if str_eq_ignore_case(value, "platform") {
        DeviceKind::Platform
    } else {
        match entity_type {
            EntityType::Gb28181Platform => DeviceKind::Platform,
            _ => DeviceKind::Camera,
        }
    }
}

/// The channel kind named by `v` (case-insensitive), video otherwise.
pub open spec fn channel_kind_of(v: Seq<char>) -> ChannelKind {
    if eq_ignore_case(v, "video"@) {
        ChannelKind::Video
    } else if eq_ignore_case(v, "audio"@) {
        ChannelKind::Audio
    } else if eq_ignore_case(v, "ptz"@) {
        ChannelKind::Ptz
    } else if eq_ignore_case(v, "organization"@) {
        ChannelKind::Organization
    } else if eq_ignore_case(v, "event"@) {
        ChannelKind::Event
    } else if eq_ignore_case(v, "io"@) {
        ChannelKind::Io
    } else {
        ChannelKind::Video
    }
}

/// Parses a channel kind.
pub fn parse_channel_kind(value: &str) -> (k: ChannelKind)
    ensures
        k == channel_kind_of(value@),
{
    if str_eq_ignore_case(value, "video") {
        ChannelKind::Video
    } else if str_eq_ignore_case(value, "audio") {
        ChannelKind::Audio
    } else if str_eq_ignore_case(value, "ptz") {
        ChannelKind::Ptz
    } else if str_eq_ignore_case(value, "organization") {
        ChannelKind::Organization
    } else if str_eq_ignore_case(value, "event") {
        ChannelKind::Event
    } else if str_eq_ignore_case(value, "io") {
        ChannelKind::Io
    } else {
        ChannelKind::Video
    }
}

/// The name of a channel kind in legacy exports.
pub open spec fn channel_kind_name(k: ChannelKind) -> Seq<char> {
    match k {
        ChannelKind::Video => "video"@,
        ChannelKind::Audio => "audio"@,
        ChannelKind::Ptz => "ptz"@,
        ChannelKind::Organization => "organization"@,
        ChannelKind::Event => "event"@,
        ChannelKind::Io => "io"@,
    }
}

/// The name of a known device kind in legacy exports.
pub open spec fn device_kind_name(k: DeviceKind) -> Seq<char> {
    match k {
        DeviceKind::Camera => "camera"@,
        DeviceKind::Nvr => "nvr"@,
        DeviceKind::Dvr => "dvr"@,
        DeviceKind::Encoder => "encoder"@,
        DeviceKind::Iot => "iot"@,
        DeviceKind::Platform => "platform"@,
        DeviceKind::Unknown => "unknown"@,
    }
}

/// One text cannot match, ignoring ASCII case, two names whose first
/// letters differ.
proof fn lemma_first_letters_differ(v: Seq<char>, a: Seq<char>, b: Seq<char>)
    requires
        eq_ignore_case(v, a),
        a.len() > 0,
        b.len() > 0,
        ascii_lower(a[0]) != ascii_lower(b[0]),
    ensures
        !eq_ignore_case(v, b),
{
    assert(ascii_lower(v[0]) == ascii_lower(a[0]));
}

/// Reading the name of a channel kind, in any ASCII case, gives that kind
/// back, so each kind has its own name; a text that names no kind reads as
/// video.
pub proof fn law_channel_kind_names(v: Seq<char>, k: ChannelKind)
    ensures
        eq_ignore_case(v, channel_kind_name(k)) ==> channel_kind_of(v) == k,
        (forall|j: ChannelKind| !eq_ignore_case(v, #[trigger] channel_kind_name(j)))
            ==> channel_kind_of(v) == ChannelKind::Video,
{
    reveal_strlit("video");
    reveal_strlit("audio");
    reveal_strlit("ptz");
    reveal_strlit("organization");
    reveal_strlit("event");
    reveal_strlit("io");
    let n = channel_kind_name(k);
    if eq_ignore_case(v, n) {
        if k != ChannelKind::Video {
            lemma_first_letters_differ(v, n, "video"@);
        }
        if k != ChannelKind::Audio {
            lemma_first_letters_differ(v, n, "audio"@);
        }
        if k != ChannelKind::Ptz {
            lemma_first_letters_differ(v, n, "ptz"@);
        }
        if k != ChannelKind::Organization {
            lemma_first_letters_differ(v, n, "organization"@);
        }
        if k != ChannelKind::Event {
            lemma_first_letters_differ(v, n, "event"@);
        }
    }
    assert(channel_kind_name(ChannelKind::Video) == "video"@);
    assert(channel_kind_name(ChannelKind::Audio) == "audio"@);
    assert(channel_kind_name(ChannelKind::Ptz) == "ptz"@);
    assert(channel_kind_name(ChannelKind::Organization) == "organization"@);
    assert(channel_kind_name(ChannelKind::Event) == "event"@);
    assert(channel_kind_name(ChannelKind::Io) == "io"@);
}

/// Reading the name of a known device kind, in any ASCII case, gives that
/// kind back; a text that names no known kind reads as a platform for a
/// GB/T 28181 platform record and as a camera otherwise.
pub proof fn law_device_kind_names(v: Seq<char>, k: DeviceKind, t: EntityType)
    ensures
        k != DeviceKind::Unknown && eq_ignore_case(v, device_kind_name(k)) ==> device_kind_of(v, t)
            == k,
        (forall|j: DeviceKind| j != DeviceKind::Unknown ==> !eq_ignore_case(v, #[trigger] device_kind_name(j)))
            ==> device_kind_of(v, t) == (if t == EntityType::Gb28181Platform {
            DeviceKind::Platform
        } else {
            DeviceKind::Camera
        }),
{
    reveal_strlit("camera");
    reveal_strlit("nvr");
    reveal_strlit("dvr");
    reveal_strlit("encoder");
    reveal_strlit("iot");
    reveal_strlit("platform");
    reveal_strlit("unknown");
    let n = device_kind_name(k);
    if k != DeviceKind::Unknown && eq_ignore_case(v, n) {
        if k != DeviceKind::Camera {
            lemma_first_letters_differ(v, n, "camera"@);
        }
        if k != DeviceKind::Nvr {
            lemma_first_letters_differ(v, n, "nvr"@);
        }
        if k != DeviceKind::Dvr {
            lemma_first_letters_differ(v, n, "dvr"@);
        }
        if k != DeviceKind::Encoder {
            lemma_first_letters_differ(v, n, "encoder"@);
        }
        if k != DeviceKind::Iot {
            lemma_first_letters_differ(v, n, "iot"@);
        }
    }
    assert(device_kind_name(DeviceKind::Camera) == "camera"@);
    assert(device_kind_name(DeviceKind::Nvr) == "nvr"@);
    assert(device_kind_name(DeviceKind::Dvr) == "dvr"@);
    assert(device_kind_name(DeviceKind::Encoder) == "encoder"@);
    assert(device_kind_name(DeviceKind::Iot) == "iot"@);
    assert(device_kind_name(DeviceKind::Platform) == "platform"@);
}

/// Reading the name of a protocol that legacy exports name, in any ASCII
/// case, gives that protocol; the empty name reads as GB/T 28181; any other
/// text names no protocol.
pub proof fn law_protocol_names(v: Seq<char>, p: Protocol)
    ensures
        p != Protocol::Plugin && p != Protocol::Unknown && eq_ignore_case(v, protocol_text(p))
            ==> protocol_of(v) == Some(p),
        v.len() == 0 ==> protocol_of(v) == Some(Protocol::Gb28181),
        v.len() > 0 && (forall|q: Protocol|
            q != Protocol::Plugin && q != Protocol::Unknown ==> !eq_ignore_case(
                v,
                #[trigger] protocol_text(q),
            )) ==> protocol_of(v) is None,
{
    reveal_strlit("gb28181");
    reveal_strlit("onvif");
    reveal_strlit("mqtt");
    reveal_strlit("jt808");
    reveal_strlit("isup");
    let n = protocol_text(p);
    if p != Protocol::Plugin && p != Protocol::Unknown && eq_ignore_case(v, n) {
        if p != Protocol::Gb28181 {
            lemma_first_letters_differ(v, n, "gb28181"@);
        }
        if p != Protocol::Onvif {
            lemma_first_letters_differ(v, n, "onvif"@);
        }
        if p != Protocol::Mqtt {
            lemma_first_letters_differ(v, n, "mqtt"@);
        }
        if p != Protocol::Jt808 {
            lemma_first_letters_differ(v, n, "jt808"@);
        }
    }
    assert(protocol_text(Protocol::Gb28181) == "gb28181"@);
    assert(protocol_text(Protocol::Onvif) == "onvif"@);
    assert(protocol_text(Protocol::Mqtt) == "mqtt"@);
    assert(protocol_text(Protocol::Jt808) == "jt808"@);
    assert(protocol_text(Protocol::Isup) == "isup"@);
}

/// The key names a field that the record holds in a field of its own.
pub open spec fn is_core_key(k: Seq<char>) -> bool {
    k == "entity_type"@ || k == "tenant_id"@ || k == "external_id"@ || k == "name"@ || k
        == "protocol"@ || k == "kind"@ || k == "authority"@ || k == "parent_device_id"@ || k
        == "channel_kind"@ || k == "enabled"@ || k == "secret_fields"@
}

/// Whether `key` names a field that the record holds in a field of its own.
pub fn is_core_field(key: &str) -> (b: bool)
    ensures
        b == is_core_key(key@),
{
    str_eq(key, "entity_type") || str_eq(key, "tenant_id") || str_eq(key, "external_id")
        || str_eq(key, "name") || str_eq(key, "protocol") || str_eq(key, "kind") || str_eq(
        key,
        "authority",
    ) || str_eq(key, "parent_device_id") || str_eq(key, "channel_kind") || str_eq(key, "enabled")
        || str_eq(key, "secret_fields")
}

/// Text stored for a metadata value: a string as it is, anything else as
/// its JSON text.
pub open spec fn value_text(v: MetadataValue) -> Seq<char> {
    match v {
        MetadataValue::Text(s) => s@,
        MetadataValue::Null => "null"@,
        MetadataValue::Bool(b) => if b {
            "true"@
        } else {
            "false"@
        },
        MetadataValue::Number(t) => t@,
        MetadataValue::Array(t) => t@,
        MetadataValue::Object(t) => t@,
    }
}

/// The metadata entries carried over to the aggregate: those whose key is
/// neither a core field nor a secret field name, in order, with their text.
pub open spec fn kept_metadata(
    m: Seq<(String, MetadataValue)>,
    secrets: Seq<Seq<char>>,
) -> Seq<(Seq<char>, Seq<char>)>
    decreases m.len(),
{
    if m.len() == 0 {
        Seq::empty()
    } else {
        let rest = kept_metadata(m.drop_last(), secrets);
        let e = m.last();
        if !is_core_key(e.0@) && !secrets.contains(e.0@) {
            rest.push((e.0@, value_text(e.1)))
        } else {
            rest
        }
    }
}

/// Characters of each key and value.
pub open spec fn pairs_view(v: Seq<(String, String)>) -> Seq<(Seq<char>, Seq<char>)> {
    v.map_values(|p: (String, String)| (p.0@, p.1@))
}

fn contains_name(names: &Vec<String>, key: &str) -> (b: bool)
    ensures
        b == strings_view(names@).contains(key@),
{
    let mut i: usize = 0;
    while i < names.len()
        invariant
            i <= names@.len(),
            forall|j: int| 0 <= j < i ==> (#[trigger] names@[j])@ != key@,
        decreases names.len() - i,
    {
        if str_eq(names[i].as_str(), key) {
            assert(strings_view(names@)[i as int] == key@);
            return true;
        }
        i = i + 1;
    }
    proof {
        if strings_view(names@).contains(key@) {
            let j = choose|j: int| 0 <= j < strings_view(names@).len() && strings_view(names@)[j] == key@;
            assert(names@[j]@ == key@);
        }
    }
    false
}

fn value_string(v: &MetadataValue) -> (s: String)
    ensures
        s@ == value_text(*v),
{
    match v {
        MetadataValue::Text(t) => copy_str(t.as_str()),
        MetadataValue::Null => copy_str("null"),
        MetadataValue::Bool(b) => if *b {
            copy_str("true")
        } else {
            copy_str("false")
        },
        MetadataValue::Number(t) => copy_str(t.as_str()),
        MetadataValue::Array(t) => copy_str(t.as_str()),
        MetadataValue::Object(t) => copy_str(t.as_str()),
    }
}

/// The metadata of a record that is carried over to the aggregate.
pub fn extract_metadata(record: &OldRecord) -> (m: Vec<(String, String)>)
    ensures
        pairs_view(m@) == kept_metadata(record.metadata@, secret_names(record.secret_fields@)),
{
    let names = record.secret_field_names();
    let ghost secrets = secret_names(record.secret_fields@);
    let mut out: Vec<(String, String)> = Vec::new();
    let mut i: usize = 0;
    while i < record.metadata.len()
        invariant
            i <= record.metadata@.len(),
            strings_view(names@) == secrets,
            pairs_view(out@) == kept_metadata(record.metadata@.take(i as int), secrets),
        decreases record.metadata.len() - i,
    {
        let key = &record.metadata[i].0;
        let ghost before = out@;
        assert(record.metadata@.take(i + 1).drop_last() =~= record.metadata@.take(i as int));
        if !is_core_field(key.as_str()) && !contains_name(&names, key.as_str()) {
            let k = copy_str(key.as_str());
            let val = value_string(&record.metadata[i].1);
            out.push((k, val));
            assert(pairs_view(out@) =~= pairs_view(before).push((key@, value_text(record.metadata@[i as int].1))));
        }
        i = i + 1;
    }
    assert(record.metadata@.take(i as int) =~= record.metadata@);
    out
}

/// Protocol of a device-like record, keyed by tenant and external identifier.
#[derive(Clone, Debug)]
pub struct ParentEntry {
    /// Tenant identifier in the old system.
    pub tenant_id: String,
    /// External identifier of the device.
    pub external_id: String,
    /// Protocol of the device.
    pub protocol: Protocol,
}

/// The protocol last recorded for `(tenant, external)`, if any.
pub open spec fn parent_lookup(s: Seq<ParentEntry>, tenant: Seq<char>, external: Seq<char>) -> Option<
    Protocol,
>
    decreases s.len(),
{
    if s.len() == 0 {
        None
    } else if s.last().tenant_id@ == tenant && s.last().external_id@ == external {
        Some(s.last().protocol)
    } else {
        parent_lookup(s.drop_last(), tenant, external)
    }
}

/// Map from `(tenant_id, external_id)` to the protocol used by the parent
/// device; a later insertion for the same key replaces the earlier one.
#[derive(Clone, Debug)]
pub struct ParentProtocols {
    entries: Vec<ParentEntry>,
}

impl View for ParentProtocols {
    type V = Map<(Seq<char>, Seq<char>), Protocol>;

    closed spec fn view(&self) -> Map<(Seq<char>, Seq<char>), Protocol> {
        Map::new(
            |k: (Seq<char>, Seq<char>)| parent_lookup(self.entries@, k.0, k.1) is Some,
            |k: (Seq<char>, Seq<char>)| parent_lookup(self.entries@, k.0, k.1)->0,
        )
    }
}

impl ParentProtocols {
    /// An empty map.
    pub fn new() -> (m: ParentProtocols)
        ensures
            m@ == Map::<(Seq<char>, Seq<char>), Protocol>::empty(),
    {
        let m = ParentProtocols { entries: Vec::new() };
        assert(m@ =~= Map::<(Seq<char>, Seq<char>), Protocol>::empty());
        m
    }

    /// Records the protocol of the device `(tenant_id, external_id)`.
    pub fn insert(&mut self, tenant_id: String, external_id: String, protocol: Protocol)
        ensures
            final(self)@ == old(self)@.insert((tenant_id@, external_id@), protocol),
    {
        let ghost t = tenant_id@;
        let ghost e = external_id@;
        self.entries.push(ParentEntry { tenant_id, external_id, protocol });
        assert(self.entries@.drop_last() =~= old(self).entries@);
        assert(self@ =~= old(self)@.insert((t, e), protocol));
    }

    /// The protocol recorded for `(tenant_id, external_id)`.
    pub fn get(&self, tenant_id: &str, external_id: &str) -> (r: Option<Protocol>)
        ensures
            r == (if self@.contains_key((tenant_id@, external_id@)) {
                Some(self@[(tenant_id@, external_id@)])
            } else {
                None
            }),
    {
        let mut i = self.entries.len();
        assert(self.entries@.take(i as int) =~= self.entries@);
        while i > 0
            invariant
                i <= self.entries@.len(),
                parent_lookup(self.entries@, tenant_id@, external_id@) == parent_lookup(
                    self.entries@.take(i as int),
                    tenant_id@,
                    external_id@,
                ),
            decreases i,
        {
            let ghost pre = self.entries@.take(i as int);
            assert(pre.drop_last() =~= self.entries@.take(i - 1));
            assert(pre.last() == self.entries@[i - 1]);
            if str_eq(self.entries[i - 1].tenant_id.as_str(), tenant_id) && str_eq(
                self.entries[i - 1].external_id.as_str(),
                external_id,
            ) {
                return Some(self.entries[i - 1].protocol);
            }
            i = i - 1;
        }
        assert(self.entries@.take(0) =~= Seq::<ParentEntry>::empty());
        None
    }
}

/// A device, platform or endpoint as the importer writes it.
#[derive(Clone, Debug)]
pub struct DevicePlan {
    /// Stable tenant identifier (UUID bytes).
    pub tenant_id: [u8; 16],
    /// Stable device identifier (UUID bytes).
    pub device_id: [u8; 16],
    /// Protocol of the device.
    pub protocol: Protocol,
    /// External/protocol identifier.
    pub external_id: String,
    /// Authority / host / endpoint address.
    pub authority: String,
    /// Display name.
    pub name: String,
    /// Device kind.
    pub kind: DeviceKind,
    /// Metadata carried over from the source record.
    pub metadata: Vec<(String, String)>,
}

/// A channel as the importer writes it; imported channels start offline.
#[derive(Clone, Debug)]
pub struct ChannelPlan {
    /// Stable tenant identifier (UUID bytes).
    pub tenant_id: [u8; 16],
    /// Stable identifier of the parent device (UUID bytes).
    pub device_id: [u8; 16],
    /// Stable channel identifier (UUID bytes).
    pub channel_id: [u8; 16],
    /// Channel kind.
    pub kind: ChannelKind,
    /// Display name.
    pub name: String,
    /// Whether the channel is enabled.
    pub enabled: bool,
    /// Metadata carried over from the source record.
    pub metadata: Vec<(String, String)>,
}

/// Aggregate variants produced by mappers.
#[derive(Clone, Debug)]
pub enum MappedAggregate {
    /// Device aggregate.
    Device(DevicePlan),
    /// Channel aggregate.
    Channel(ChannelPlan),
    /// Tenant placeholder (no aggregate, only action items).
    Tenant,
    /// Secret reference placeholder (no aggregate).
    SecretReference,
    /// GB28181 platform mapped as a device.
    Gb28181Platform(DevicePlan),
    /// ONVIF endpoint mapped as a device.
    OnvifEndpoint(DevicePlan),
    /// Unknown or skipped entity.
    Skipped,
}

/// Kind of the aggregate that an outbox event refers to.
#[derive(Clone, Copy, Debug, PartialEq, Eq)]
pub enum ResourceKind {
    /// A device, platform or endpoint.
    Device,
    /// A channel.
    Channel,
}

/// The outbox envelope of the creation event of a mapped aggregate: the
/// tenant, the aggregate it refers to and its sequence number within the
/// aggregate. The event, correlation and causation identifiers and the time
/// are given when the event is written.
#[derive(Clone, Copy, Debug)]
pub struct OutboxEvent {
    /// Stable tenant identifier (UUID bytes).
    pub tenant_id: [u8; 16],
    /// Kind of the aggregate.
    pub kind: ResourceKind,
    /// Identifier of the aggregate (UUID bytes).
    pub resource_id: [u8; 16],
    /// Sequence number of the event within its aggregate.
    pub aggregate_sequence: u64,
}

/// An aggregate produced by a mapper, plus action items for the operator
/// and the outbox events written with the aggregate.
#[derive(Clone, Debug)]
pub struct MappedEntity {
    /// The resulting aggregate, if any.
    pub entity: MappedAggregate,
    /// Human-readable action items (e.g. missing credentials).
    pub actions: Vec<String>,
    /// Outbox events produced alongside the aggregate.
    pub events: Vec<OutboxEvent>,
}

/// `e` is the first event of the device `p`.
pub open spec fn is_device_event(e: OutboxEvent, p: DevicePlan) -> bool {
    &&& e.tenant_id@ == p.tenant_id@
    &&& e.kind == ResourceKind::Device
    &&& e.resource_id@ == p.device_id@
    &&& e.aggregate_sequence == 0
}

/// `e` is the first event of the channel `p`.
pub open spec fn is_channel_event(e: OutboxEvent, p: ChannelPlan) -> bool {
    &&& e.tenant_id@ == p.tenant_id@
    &&& e.kind == ResourceKind::Channel
    &&& e.resource_id@ == p.channel_id@
    &&& e.aggregate_sequence == 0
}

/// The outbox event written with a new device.
pub fn device_event(p: &DevicePlan) -> (e: OutboxEvent)
    ensures
        is_device_event(e, *p),
{
    OutboxEvent {
        tenant_id: p.tenant_id,
        kind: ResourceKind::Device,
        resource_id: p.device_id,
        aggregate_sequence: 0,
    }
}

/// The outbox event written with a new channel.
pub fn channel_event(p: &ChannelPlan) -> (e: OutboxEvent)
    ensures
        is_channel_event(e, *p),
{
    OutboxEvent {
        tenant_id: p.tenant_id,
        kind: ResourceKind::Channel,
        resource_id: p.channel_id,
        aggregate_sequence: 0,
    }
}

/// Why a device-like record cannot be mapped, if it cannot.
pub open spec fn device_like_error(r: OldRecord) -> Option<Seq<char>> {
    if r.external_id@.len() == 0 {
        Some("device-like record missing external_id"@)
    } else if r.tenant_id@.len() == 0 {
        Some("device-like record missing tenant_id"@)
    } else if protocol_of(r.protocol@) is None {
        Some("unknown protocol: "@ + r.protocol@)
    } else {
        None
    }
}

/// Why a channel record cannot be mapped, if it cannot.
pub open spec fn channel_error(r: OldRecord) -> Option<Seq<char>> {
    if r.external_id@.len() == 0 {
        Some("channel record missing external_id"@)
    } else if r.parent_device_id@.len() == 0 {
        Some("channel "@ + r.external_id@ + " missing parent_device_id"@)
    } else if r.tenant_id@.len() == 0 {
        Some("channel "@ + r.external_id@ + " missing tenant_id"@)
    } else {
        None
    }
}

/// The action items of a mapped record: one line naming its secret fields,
/// when it has any.
pub open spec fn secret_actions(word: Seq<char>, r: OldRecord) -> Seq<Seq<char>> {
    let names = secret_names(r.secret_fields@);
    if names.len() > 0 {
        seq![word + r.external_id@ + " has secrets that must be re-entered: "@ + join(names, ", "@)]
    } else {
        Seq::empty()
    }
}

/// The device plan is the mapping of the record.
pub open spec fn device_plan_of(p: DevicePlan, r: OldRecord) -> bool {
    let proto = protocol_of(r.protocol@)->0;
    &&& p.tenant_id@ == stable_id(r.tenant_id@)
    &&& p.device_id@ == stable_id(device_id_input(r.tenant_id@, r.external_id@, proto))
    &&& p.protocol == proto
    &&& p.external_id@ == r.external_id@
    &&& p.authority@ == r.authority@
    &&& p.name@ == r.name@
    &&& p.kind == device_kind_of(r.kind@, r.entity_type)
    &&& pairs_view(p.metadata@) == kept_metadata(r.metadata@, secret_names(r.secret_fields@))
}

/// Protocol of the parent device of a channel record: the one recorded for
/// the parent, else the record's own, else GB/T 28181.
pub open spec fn channel_protocol(r: OldRecord, parents: Map<(Seq<char>, Seq<char>), Protocol>) -> Protocol {
    let key = (r.tenant_id@, r.parent_device_id@);
    if parents.contains_key(key) {
        parents[key]
    } else {
        match protocol_of(r.protocol@) {
            Some(p) => p,
            None => Protocol::Gb28181,
        }
    }
}

/// The channel plan is the mapping of the record.
pub open spec fn channel_plan_of(
    p: ChannelPlan,
    r: OldRecord,
    parents: Map<(Seq<char>, Seq<char>), Protocol>,
) -> bool {
    let proto = channel_protocol(r, parents);
    &&& p.tenant_id@ == stable_id(r.tenant_id@)
    &&& p.device_id@ == stable_id(device_id_input(r.tenant_id@, r.parent_device_id@, proto))
    &&& p.channel_id@ == stable_id(
        channel_id_input(r.tenant_id@, r.parent_device_id@, r.external_id@, proto),
    )
    &&& p.kind == channel_kind_of(r.channel_kind@)
    &&& p.name@ == r.name@
    &&& p.enabled == r.enabled
    &&& pairs_view(p.metadata@) == kept_metadata(r.metadata@, secret_names(r.secret_fields@))
}

/// `out` is what [`map_record`] returns for `r`.
pub open spec fn mapped_as(
    r: OldRecord,
    parents: Map<(Seq<char>, Seq<char>), Protocol>,
    out: Result<MappedEntity, MigrationError>,
) -> bool {
    match r.entity_type {
        EntityType::Tenant => out matches Ok(m) && m.entity is Tenant && m.actions@.len() == 0
            && m.events@.len() == 0,
        EntityType::SecretReference => out matches Ok(m) && m.entity is SecretReference
            && m.actions@.len() == 0 && m.events@.len() == 0,
        EntityType::Unknown => out matches Ok(m) && m.entity is Skipped && m.actions@.len() == 0
            && m.events@.len() == 0,
        EntityType::Channel => match channel_error(r) {
            Some(msg) => out matches Err(e) && is_invalid_record(e, msg),
            None => out matches Ok(m) && m.entity matches MappedAggregate::Channel(c)
                && channel_plan_of(c, r, parents) && strings_view(m.actions@) == secret_actions(
                "channel "@,
                r,
            ) && m.events@.len() == 1 && is_channel_event(m.events@[0], c),
        },
        _ => match device_like_error(r) {
            Some(msg) => out matches Err(e) && is_invalid_record(e, msg),
            None => out matches Ok(m) && strings_view(m.actions@) == secret_actions("device "@, r)
                && match m.entity {
                MappedAggregate::Device(d) => r.entity_type == EntityType::Device
                    && device_plan_of(d, r) && m.events@.len() == 1 && is_device_event(
                    m.events@[0],
                    d,
                ),
                MappedAggregate::Gb28181Platform(d) => r.entity_type
                    == EntityType::Gb28181Platform && device_plan_of(d, r) && m.events@.len() == 1
                    && is_device_event(m.events@[0], d),
                MappedAggregate::OnvifEndpoint(d) => r.entity_type == EntityType::OnvifEndpoint
                    && device_plan_of(d, r) && m.events@.len() == 1 && is_device_event(
                    m.events@[0],
                    d,
                ),
                _ => false,
            },
        },
    }
}

fn secret_action_items(word: &str, record: &OldRecord) -> (v: Vec<String>)
    ensures
        strings_view(v@) == secret_actions(word@, *record),
{
    let names = record.secret_field_names();
    let mut v: Vec<String> = Vec::new();
    if names.len() > 0 {
        let mut s = copy_str(word);
        push_str(&mut s, record.external_id.as_str());
        push_str(&mut s, " has secrets that must be re-entered: ");
        let joined = join_strings(&names, ", ");
        push_str(&mut s, joined.as_str());
        v.push(s);
        assert(strings_view(v@) =~= secret_actions(word@, *record));
    } else {
        assert(strings_view(v@) =~= secret_actions(word@, *record));
    }
    v
}

fn map_device_like(record: &OldRecord) -> (out: Result<MappedEntity, MigrationError>)
    requires
        record.entity_type == EntityType::Device || record.entity_type
            == EntityType::Gb28181Platform || record.entity_type == EntityType::OnvifEndpoint,
    ensures
        mapped_as(*record, Map::empty(), out),
{
    if record.external_id.as_str().is_empty() {
        return Err(MigrationError::invalid("device-like record missing external_id"));
    }
    if record.tenant_id.as_str().is_empty() {
        return Err(MigrationError::invalid("device-like record missing tenant_id"));
    }
    let tenant_id = stable_tenant_id(record.tenant_id.as_str());
    let protocol = match parse_protocol(record.protocol.as_str()) {
        Ok(p) => p,
        Err(e) => {
            return Err(e);
        },
    };
    let device_id = stable_device_id(
        record.tenant_id.as_str(),
        record.external_id.as_str(),
        protocol,
    );
    let kind = parse_device_kind(record.kind.as_str(), record.entity_type);
    let metadata = extract_metadata(record);
    let plan = DevicePlan {
        tenant_id,
        device_id,
        protocol,
        external_id: copy_str(record.external_id.as_str()),
        authority: copy_str(record.authority.as_str()),
        name: copy_str(record.name.as_str()),
        kind,
        metadata,
    };
    let actions = secret_action_items("device ", record);
    let events = vec![device_event(&plan)];
    let entity = match record.entity_type {
        EntityType::Gb28181Platform => MappedAggregate::Gb28181Platform(plan),
        EntityType::OnvifEndpoint => MappedAggregate::OnvifEndpoint(plan),
        _ => MappedAggregate::Device(plan),
    };
    Ok(MappedEntity { entity, actions, events })
}

fn map_channel(record: &OldRecord, parents: &ParentProtocols) -> (out: Result<
    MappedEntity,
    MigrationError,
>)
    requires
        record.entity_type == EntityType::Channel,
    ensures
        mapped_as(*record, parents@, out),
{
    if record.external_id.as_str().is_empty() {
        return Err(MigrationError::invalid("channel record missing external_id"));
    }
    if record.parent_device_id.as_str().is_empty() {
        let mut m = copy_str("channel ");
        push_str(&mut m, record.external_id.as_str());
        push_str(&mut m, " missing parent_device_id");
        return Err(MigrationError::InvalidRecord { row: 0, message: m });
    }
    if record.tenant_id.as_str().is_empty() {
        let mut m = copy_str("channel ");
        push_str(&mut m, record.external_id.as_str());
        push_str(&mut m, " missing tenant_id");
        return Err(MigrationError::InvalidRecord { row: 0, message: m });
    }
    let tenant_id = stable_tenant_id(record.tenant_id.as_str());
    let parent_protocol = match parents.get(
        record.tenant_id.as_str(),
        record.parent_device_id.as_str(),
    ) {
        Some(p) => p,
        None => match parse_protocol(record.protocol.as_str()) {
            Ok(p) => p,
            Err(_) => Protocol::Gb28181,
        },
    };
    let device_id = stable_device_id(
        record.tenant_id.as_str(),
        record.parent_device_id.as_str(),
        parent_protocol,
    );
    let channel_id = stable_channel_id(
        record.tenant_id.as_str(),
        record.parent_device_id.as_str(),
        record.external_id.as_str(),
        parent_protocol,
    );
    let kind = parse_channel_kind(record.channel_kind.as_str());
    let metadata = extract_metadata(record);
    let plan = ChannelPlan {
        tenant_id,
        device_id,
        channel_id,
        kind,
        name: copy_str(record.name.as_str()),
        enabled: record.enabled,
        metadata,
    };
    let actions = secret_action_items("channel ", record);
    let events = vec![channel_event(&plan)];
    Ok(MappedEntity { entity: MappedAggregate::Channel(plan), actions, events })
}

/// Maps a source record into the aggregate the importer writes.
pub fn map_record(record: &OldRecord, parent_protocols: &ParentProtocols) -> (out: Result<
    MappedEntity,
    MigrationError,
>)
    ensures
        mapped_as(*record, parent_protocols@, out),
{
    match record.entity_type {
        EntityType::Tenant => Ok(
            MappedEntity { entity: MappedAggregate::Tenant, actions: Vec::new(), events: Vec::new() },
        ),
        EntityType::Device | EntityType::Gb28181Platform | EntityType::OnvifEndpoint => {
            map_device_like(record)
        },
        EntityType::Channel => map_channel(record, parent_protocols),
        EntityType::SecretReference => Ok(
            MappedEntity {
                entity: MappedAggregate::SecretReference,
                actions: Vec::new(),
                events: Vec::new(),
            },
        ),
        EntityType::Unknown => Ok(
            MappedEntity { entity: MappedAggregate::Skipped, actions: Vec::new(), events: Vec::new() },
        ),
    }
}

/// A metadata entry named as a secret field, or held in a field of its own,
/// is never carried over.
pub proof fn law_secrets_never_kept(m: Seq<(String, MetadataValue)>, secrets: Seq<Seq<char>>, key: Seq<char>)
    requires
        secrets.contains(key) || is_core_key(key),
    ensures
        forall|i: int| 0 <= i < kept_metadata(m, secrets).len() ==> (#[trigger] kept_metadata(m, secrets)[i]).0 != key,
    decreases m.len(),
{
    if m.len() > 0 {
        law_secrets_never_kept(m.drop_last(), secrets, key);
        let rest = kept_metadata(m.drop_last(), secrets);
        let e = m.last();
        assert forall|i: int| 0 <= i < kept_metadata(m, secrets).len() implies (#[trigger] kept_metadata(m, secrets)[i]).0 != key by {
            if i < rest.len() {
                assert(kept_metadata(m, secrets)[i] == rest[i]);
            } else {
                assert(!is_core_key(e.0@) && !secrets.contains(e.0@));
            }
        }
    }
}

/// Mapping is deterministic in the identifiers: two mappings of the same
/// record with the same parents give the same device (and, for a channel,
/// the same channel) identifier.
pub proof fn law_stable_identifiers(
    r: OldRecord,
    parents: Map<(Seq<char>, Seq<char>), Protocol>,
    a: MappedEntity,
    b: MappedEntity,
)
    requires
        mapped_as(r, parents, Ok(a)),
        mapped_as(r, parents, Ok(b)),
    ensures
        a.entity matches MappedAggregate::Device(x) ==> (b.entity matches MappedAggregate::Device(y)
            ==> x.device_id@ == y.device_id@ && x.tenant_id@ == y.tenant_id@),
        a.entity matches MappedAggregate::Channel(x) ==> (b.entity matches MappedAggregate::Channel(y)
            ==> x.device_id@ == y.device_id@ && x.channel_id@ == y.channel_id@),
{
}

/// A channel belongs to the device that the same batch maps for its parent:
/// the channel's device identifier is the parent's, whenever the parent's
/// protocol is the one known for it.
pub proof fn law_channel_joins_its_parent(
    channel: OldRecord,
    device: OldRecord,
    parents: Map<(Seq<char>, Seq<char>), Protocol>,
    c: ChannelPlan,
    d: DevicePlan,
)
    requires
        channel_plan_of(c, channel, parents),
        device_plan_of(d, device),
        device.tenant_id@ == channel.tenant_id@,
        device.external_id@ == channel.parent_device_id@,
        parents.contains_key((device.tenant_id@, device.external_id@)),
        parents[(device.tenant_id@, device.external_id@)] == protocol_of(device.protocol@)->0,
    ensures
        c.device_id@ == d.device_id@,
{
}

} // verus!
