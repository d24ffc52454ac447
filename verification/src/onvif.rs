//! Provisioning of cameras found by ONVIF WS-Discovery: the registration
//! that a discovered device gets from its `GetDeviceInformation` answer.
use crate::api::extract::{parse_uuid, uuid_parsed};
use crate::gb::catalog::entries_view;
use crate::text::{copy_str, join, join_strings, strings_view};
use vstd::prelude::*;

verus! {

/// Name of the host that a URL designates, as the `url` crate parses it
/// (`None` for an unparsable URL or one without a host).
pub uninterp spec fn url_host(url: Seq<char>) -> Option<Seq<char>>;

/// Parses `xaddr` with `url::Url::parse` and takes `host_str`; the outcome
/// is believed to be `url_host` of the argument, nothing more.
#[verifier::external_body]
fn source_ip_from_xaddr(xaddr: &str) -> (r: Option<String>)
    ensures
        match r {
            Some(h) => url_host(xaddr@) == Some(h@),
            None => url_host(xaddr@) is None,
        },
{
    url::Url::parse(xaddr).ok().and_then(|u| u.host_str().map(String::from))
}

/// What a camera answers to `GetDeviceInformation`; absent values are empty.
#[derive(Clone, Debug)]
pub struct DeviceInformation {
    pub manufacturer: String,
    pub model: String,
    pub firmware_version: String,
    pub serial_number: String,
    pub hardware_id: String,
}

/// `key` with `value`, or nothing when the value is empty.
pub open spec fn nonempty_entry(key: Seq<char>, value: Seq<char>) -> Seq<(Seq<char>, Seq<char>)> {
    if value.len() == 0 {
        Seq::empty()
    } else {
        seq![(key, value)]
    }
}

/// Metadata of a discovered camera, in ascending key order: the service
/// address it answered on, and each non-empty device attribute.
pub open spec fn provision_metadata(info: DeviceInformation, xaddr: Seq<char>) -> Seq<(Seq<char>, Seq<char>)> {
    seq![("endpoint"@, xaddr)] + nonempty_entry("firmware_version"@, info.firmware_version@)
        + nonempty_entry("hardware_id"@, info.hardware_id@) + nonempty_entry(
        "manufacturer"@,
        info.manufacturer@,
    ) + nonempty_entry("model"@, info.model@) + nonempty_entry("serial_number"@, info.serial_number@)
}

fn push_nonempty(out: &mut Vec<(String, String)>, key: &str, value: &String)
    ensures
        entries_view(final(out)@) == entries_view(old(out)@) + nonempty_entry(key@, value@),
{
    let ghost before = out@;
    if value.as_str().unicode_len() == 0 {
        assert(entries_view(out@) =~= entries_view(before) + nonempty_entry(key@, value@));
    } else {
        out.push((copy_str(key), copy_str(value.as_str())));
        assert(entries_view(out@) =~= entries_view(before) + nonempty_entry(key@, value@));
    }
}

/// Builds the metadata recorded for a camera reached at `xaddr`.
pub fn device_metadata(info: &DeviceInformation, xaddr: &str) -> (m: Vec<(String, String)>)
    ensures
        entries_view(m@) == provision_metadata(*info, xaddr@),
{
    let mut m: Vec<(String, String)> = Vec::new();
    m.push((copy_str("endpoint"), copy_str(xaddr)));
    assert(entries_view(m@) =~= seq![("endpoint"@, xaddr@)]);
    push_nonempty(&mut m, "firmware_version", &info.firmware_version);
    push_nonempty(&mut m, "hardware_id", &info.hardware_id);
    push_nonempty(&mut m, "manufacturer", &info.manufacturer);
    push_nonempty(&mut m, "model", &info.model);
    push_nonempty(&mut m, "serial_number", &info.serial_number);
    m
}

/// The value as a one-element list, or the empty list when it is empty.
pub open spec fn nonempty_part(value: Seq<char>) -> Seq<Seq<char>> {
    if value.len() == 0 {
        Seq::empty()
    } else {
        seq![value]
    }
}

/// The non-empty of manufacturer, model and serial number, in that order.
pub open spec fn name_parts(info: DeviceInformation) -> Seq<Seq<char>> {
    nonempty_part(info.manufacturer@) + nonempty_part(info.model@) + nonempty_part(info.serial_number@)
}

/// Display name of a camera: its name parts joined by single spaces, or the
/// fallback when it reported none of them.
pub open spec fn device_name_of(info: DeviceInformation, fallback: Seq<char>) -> Seq<char> {
    if name_parts(info).len() == 0 {
        fallback
    } else {
        join(name_parts(info), " "@)
    }
}

fn push_part(parts: &mut Vec<String>, value: &String)
    ensures
        strings_view(final(parts)@) == strings_view(old(parts)@) + nonempty_part(value@),
{
    let ghost before = parts@;
    if value.as_str().unicode_len() > 0 {
        parts.push(copy_str(value.as_str()));
    }
    assert(strings_view(parts@) =~= strings_view(before) + nonempty_part(value@));
}

/// Builds the display name of a camera; `fallback` (its endpoint reference)
/// is used when the camera reported no manufacturer, model or serial number.
pub fn device_name(info: &DeviceInformation, fallback: &str) -> (s: String)
    ensures
        s@ == device_name_of(*info, fallback@),
{
    let mut parts: Vec<String> = Vec::new();
    push_part(&mut parts, &info.manufacturer);
    push_part(&mut parts, &info.model);
    push_part(&mut parts, &info.serial_number);
    assert(strings_view(parts@) =~= name_parts(*info));
    if parts.len() == 0 {
        copy_str(fallback)
    } else {
        join_strings(&parts, " ")
    }
}

/// The registration of a discovered camera.
#[derive(Debug)]
pub struct RegisterDeviceRequest {
    pub protocol: String,
    pub external_id: String,
    pub authority: Option<String>,
    pub name: String,
    pub kind: String,
    /// Capability flags, by key.
    pub capabilities: Vec<(String, bool)>,
    pub metadata: Vec<(String, String)>,
}

/// The requests made for a camera that answered on `xaddr`: register it (or
/// update it) by its endpoint reference, replace its channel catalog with an
/// empty one, and mark it online with `online_reason`. The requests are made
/// from the host part of `xaddr` as source address.
#[derive(Debug)]
pub struct ProvisionPlan {
    pub register: RegisterDeviceRequest,
    pub source_ip: Option<String>,
    pub online_reason: String,
}

/// Builds the provisioning requests for a camera with endpoint reference
/// `endpoint_ref` that answered `GetDeviceInformation` on `xaddr`.
pub fn provision_plan(info: &DeviceInformation, endpoint_ref: &str, xaddr: &str) -> (p: ProvisionPlan)
    ensures
        p.register.protocol@ == "onvif"@,
        p.register.external_id@ == endpoint_ref@,
        p.register.authority is None,
        p.register.name@ == device_name_of(*info, endpoint_ref@),
        p.register.kind@ == "camera"@,
        p.register.capabilities@.len() == 1,
        p.register.capabilities@[0].0@ == "onvif"@,
        p.register.capabilities@[0].1,
        entries_view(p.register.metadata@) == provision_metadata(*info, xaddr@),
        match p.source_ip {
            Some(h) => url_host(xaddr@) == Some(h@),
            None => url_host(xaddr@) is None,
        },
        p.online_reason@ == "onvif discovery"@,
{
    let mut capabilities: Vec<(String, bool)> = Vec::new();
    capabilities.push((copy_str("onvif"), true));
    ProvisionPlan {
        register: RegisterDeviceRequest {
            protocol: copy_str("onvif"),
            external_id: copy_str(endpoint_ref),
            authority: None,
            name: device_name(info, endpoint_ref),
            kind: copy_str("camera"),
            capabilities,
            metadata: device_metadata(info, xaddr),
        },
        source_ip: source_ip_from_xaddr(xaddr),
        online_reason: copy_str("onvif discovery"),
    }
}

/// Why discovery does not run.
#[derive(Clone, Debug)]
pub enum DiscoverySkip {
    /// Discovery is switched off.
    Disabled,
    /// No default tenant is configured to own discovered cameras.
    MissingTenant,
    /// The default tenant is not a UUID; holds the parse error.
    InvalidTenant(String),
}

/// How discovery runs.
#[derive(Clone, Copy, Debug)]
pub struct DiscoverySchedule {
    /// Tenant that discovered cameras are registered under.
    pub tenant_id: u128,
    /// Pause before each sweep, in milliseconds.
    pub interval_ms: u64,
    /// A zero interval means one sweep, then the worker stops.
    pub single_sweep: bool,
    /// Most cameras probed at once (at least one).
    pub max_concurrent_probes: u32,
}

/// Decides whether and how discovery runs: it is skipped when disabled or
/// without a valid default tenant; a zero interval makes a single sweep;
/// at least one probe runs at a time.
pub fn discovery_schedule(
    enabled: bool,
    default_tenant_id: Option<&str>,
    interval_ms: u64,
    max_concurrent_probes: u32,
) -> (r: Result<DiscoverySchedule, DiscoverySkip>)
    ensures
        !enabled ==> r matches Err(DiscoverySkip::Disabled),
        enabled ==> match default_tenant_id {
            None => r matches Err(DiscoverySkip::MissingTenant),
            Some(t) => match uuid_parsed(t@) {
                Ok(v) => r matches Ok(s) && s.tenant_id == v && s.interval_ms == interval_ms
                    && s.single_sweep == (interval_ms == 0) && s.max_concurrent_probes == if max_concurrent_probes
                    == 0 {
                    1
                } else {
                    max_concurrent_probes
                },
                Err(e) => r matches Err(DiscoverySkip::InvalidTenant(m)) && m@ == e,
            },
        },
{
    if !enabled {
        return Err(DiscoverySkip::Disabled);
    }
    let tenant_id = match default_tenant_id {
        None => {
            return Err(DiscoverySkip::MissingTenant);
        },
        Some(t) => match parse_uuid(t) {
            Ok(v) => v,
            Err(e) => {
                return Err(DiscoverySkip::InvalidTenant(e));
            },
        },
    };
    Ok(
        DiscoverySchedule {
            tenant_id,
            interval_ms,
            single_sweep: interval_ms == 0,
            max_concurrent_probes: if max_concurrent_probes == 0 {
                1
            } else {
                max_concurrent_probes
            },
        },
    )
}

} // verus!
