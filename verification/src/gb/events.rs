//! GB28181 driver events and what the signaling service does with each.
use crate::gb::catalog::{entries_view, opt_entry, push_opt, CatalogItem};
use crate::text::{copy_str, decimal, eq_ignore_case, str_eq_ignore_case, to_decimal};
use vstd::prelude::*;

verus! {

/// Presence reported for a device.
#[derive(Clone, Copy, Debug, PartialEq, Eq, Structural)]
pub enum Presence {
    /// The device is reachable.
    Online,
    /// The device went away.
    Offline,
}

/// An event raised by the GB28181 driver, with identifiers and addresses
/// already rendered as text.
#[derive(Clone, Debug)]
pub enum GbEvent {
    /// A device registered.
    DeviceRegistered { device_id: String, registration_sequence: u64, source: String },
    /// A device unregistered.
    DeviceUnregistered { device_id: String, source: String },
    /// A device's presence changed.
    DevicePresenceChanged { device_id: String, presence: Presence, source: String },
    /// A keepalive arrived.
    Keepalive { device_id: String, source: String },
    /// A catalog fragment arrived.
    CatalogReceived {
        device_id: String,
        sn: String,
        sum_num: u32,
        num: u32,
        items: Vec<CatalogItem>,
        source: String,
    },
    /// A device-info response arrived.
    DeviceInfoReceived {
        device_id: String,
        result: Option<String>,
        manufacturer: Option<String>,
        model: Option<String>,
        firmware: Option<String>,
        source: String,
    },
    /// A device-status response arrived.
    DeviceStatusReceived {
        device_id: String,
        result: Option<String>,
        online: Option<String>,
        status: Option<String>,
        reason: Option<String>,
        invalid_equip: Option<String>,
        source: String,
    },
    /// An alarm arrived.
    AlarmReceived {
        device_id: String,
        sn: String,
        priority: Option<String>,
        method: Option<String>,
        alarm_type: Option<String>,
        time: Option<String>,
        info: Option<String>,
        source: String,
    },
    /// A mobile position report arrived.
    MobilePositionReceived {
        device_id: String,
        sn: String,
        time: Option<String>,
        longitude: Option<String>,
        latitude: Option<String>,
        speed: Option<String>,
        direction: Option<String>,
        altitude: Option<String>,
        source: String,
    },
    /// A device-control response arrived.
    DeviceControlResponseReceived {
        device_id: String,
        sn: String,
        result: Option<String>,
        source: String,
    },
    /// A media session started; the negotiated SDP body is not carried.
    MediaSessionStarted {
        media_session_id: String,
        domain_id: String,
        device_id: String,
        channel_id: String,
        source: String,
        remote_ssrc: Option<String>,
        remote_port: u16,
        remote_proto: String,
    },
    /// A media session stopped.
    MediaSessionStopped {
        media_session_id: String,
        domain_id: String,
        device_id: String,
        channel_id: String,
        source: Option<String>,
    },
    /// A media session failed.
    MediaSessionFailed {
        media_session_id: String,
        domain_id: String,
        device_id: String,
        channel_id: String,
        source: Option<String>,
        reason: String,
    },
    /// A record-info response arrived.
    RecordInfoReceived {
        device_id: String,
        sn: String,
        num: u32,
        sum_num: u32,
        items: Vec<RecordItem>,
        source: String,
    },
    /// An upper platform accepted the cascade registration.
    CascadePlatformConnected {
        domain_id: String,
        platform_id: String,
        upstream: String,
        expires: u64,
    },
    /// The cascade link to an upper platform went down.
    CascadePlatformDisconnected { domain_id: String, platform_id: String, reason: String },
    /// An upper platform asked to play a stream; the SDP body is not carried.
    CascadePlayRequested {
        domain_id: String,
        platform_id: String,
        bridge_id: String,
        upstream_call_id: String,
        upstream_from: String,
        upstream_to: String,
        target_user: String,
    },
    /// An upper platform stopped a stream.
    CascadePlayStopped { domain_id: String, platform_id: String, bridge_id: String, reason: String },
}

/// One recording found on a device.
#[derive(Clone, Debug, Default)]
pub struct RecordItem {
    /// Channel identifier.
    pub device_id: String,
    /// Name.
    pub name: Option<String>,
    /// File path.
    pub file_path: Option<String>,
    /// Start time.
    pub start_time: Option<String>,
    /// End time.
    pub end_time: Option<String>,
    /// Secrecy flag.
    pub secrecy: Option<String>,
    /// Recording type.
    pub record_type: Option<String>,
    /// Recorder identifier.
    pub recorder_id: Option<String>,
    /// File size.
    pub file_size: Option<String>,
}

/// Media session transition requested by a driver event.
#[derive(Clone, Debug)]
pub enum SessionTransition {
    /// Progress the session to Active.
    Start,
    /// Tear the session down.
    Stop,
    /// Fail the session with the given reason.
    Fail(String),
}

/// Outcome of a device-control command.
#[derive(Clone, Copy, Debug, PartialEq, Eq, Structural)]
pub enum CommandOutcome {
    /// The device answered `OK`.
    Succeeded,
    /// The device answered something else.
    Failed,
    /// The device gave no result.
    Unknown,
}

/// What the service does with a driver event.
#[derive(Clone, Debug)]
pub enum EventAction {
    /// No tenant is configured: the event is dropped.
    Ignore,
    /// Mark the device online (creating it if needed); `refresh` forces a
    /// refresh of its registration; when `bootstrap` holds a registration
    /// sequence, bootstrap queries are submitted once the device is known.
    EnsureOnline { device_id: String, refresh: bool, bootstrap: Option<u64> },
    /// Mark the device offline.
    MarkOffline { device_id: String },
    /// Accumulate a catalog fragment; a completed catalog replaces the
    /// device's channels.
    Catalog { device_id: String, sn: String, sum_num: u32, num: u32, items: Vec<CatalogItem> },
    /// Merge metadata into the device.
    UpdateDeviceInfo { device_id: String, metadata: Vec<(String, String)> },
    /// Record a `Gb28181EventReceived` envelope; when `resolve_device` the
    /// internal id of `external_id` is looked up first.
    Append {
        resolve_device: bool,
        external_id: String,
        event_type: String,
        payload: Vec<(String, String)>,
        outcome: Option<CommandOutcome>,
    },
    /// Drive a media session and record the envelope.
    MediaSession {
        media_session_id: String,
        transition: SessionTransition,
        external_id: String,
        event_type: String,
        payload: Vec<(String, String)>,
    },
    /// Record the recordings found on a device.
    RecordInfo { device_id: String, sn: String, sum_num: u32, num: u32, items: Vec<RecordItem> },
}

/// Outcome of a device-control response.
pub open spec fn outcome_of(result: Option<Seq<char>>) -> CommandOutcome {
    match result {
        Some(v) => if eq_ignore_case(v, "OK"@) {
            CommandOutcome::Succeeded
        } else {
            CommandOutcome::Failed
        },
        None => CommandOutcome::Unknown,
    }
}

/// Characters of an optional string.
pub open spec fn opt_view(o: Option<String>) -> Option<Seq<char>> {
    match o {
        Some(s) => Some(s@),
        None => None,
    }
}

/// Maps a raw command result string to an outcome.
pub fn control_outcome(result: &Option<String>) -> (o: CommandOutcome)
    ensures
        o == outcome_of(opt_view(*result)),
{
    match result {
        Some(v) => if str_eq_ignore_case(v.as_str(), "OK") {
            CommandOutcome::Succeeded
        } else {
            CommandOutcome::Failed
        },
        None => CommandOutcome::Unknown,
    }
}

/// One payload entry.
pub open spec fn entry(key: Seq<char>, v: Seq<char>) -> Seq<(Seq<char>, Seq<char>)> {
    seq![(key, v)]
}

fn push_entry(out: &mut Vec<(String, String)>, key: &str, v: &str)
    ensures
        entries_view(final(out)@) == entries_view(old(out)@) + entry(key@, v@),
{
    let ghost before = out@;
    out.push((copy_str(key), copy_str(v)));
    assert(entries_view(out@) =~= entries_view(before) + entry(key@, v@));
}

/// Payload of a device-info response, in key order.
pub open spec fn device_info_payload(
    result: Option<String>,
    manufacturer: Option<String>,
    model: Option<String>,
    firmware: Option<String>,
) -> Seq<(Seq<char>, Seq<char>)> {
    opt_entry("firmware"@, firmware) + opt_entry("info_result"@, result) + opt_entry(
        "manufacturer"@,
        manufacturer,
    ) + opt_entry("model"@, model)
}

/// Payload of a device-status response, in key order.
pub open spec fn device_status_payload(
    result: Option<String>,
    online: Option<String>,
    status: Option<String>,
    reason: Option<String>,
    invalid_equip: Option<String>,
) -> Seq<(Seq<char>, Seq<char>)> {
    opt_entry("invalid_equip"@, invalid_equip) + opt_entry("online"@, online) + opt_entry(
        "reason"@,
        reason,
    ) + opt_entry("status"@, status) + opt_entry("status_result"@, result)
}

/// Payload of an alarm, in key order.
pub open spec fn alarm_payload(
    sn: String,
    priority: Option<String>,
    method: Option<String>,
    alarm_type: Option<String>,
    time: Option<String>,
    info: Option<String>,
) -> Seq<(Seq<char>, Seq<char>)> {
    opt_entry("alarm_type"@, alarm_type) + opt_entry("info"@, info) + opt_entry("method"@, method)
        + opt_entry("priority"@, priority) + entry("sn"@, sn@) + opt_entry("time"@, time)
}

/// Payload of a mobile position report, in key order.
pub open spec fn position_payload(
    sn: String,
    time: Option<String>,
    longitude: Option<String>,
    latitude: Option<String>,
    speed: Option<String>,
    direction: Option<String>,
    altitude: Option<String>,
) -> Seq<(Seq<char>, Seq<char>)> {
    opt_entry("altitude"@, altitude) + opt_entry("direction"@, direction) + opt_entry(
        "latitude"@,
        latitude,
    ) + opt_entry("longitude"@, longitude) + entry("sn"@, sn@) + opt_entry("speed"@, speed)
        + opt_entry("time"@, time)
}

/// Payload of a device-control response, in key order.
pub open spec fn control_payload(sn: String, result: Option<String>) -> Seq<(Seq<char>, Seq<char>)> {
    opt_entry("result"@, result) + entry("sn"@, sn@)
}

/// Identifiers common to media session payloads, in key order.
pub open spec fn session_ids(
    channel_id: String,
    device_id: String,
    domain_id: String,
    media_session_id: String,
) -> Seq<(Seq<char>, Seq<char>)> {
    entry("channel_id"@, channel_id@) + entry("device_id"@, device_id@) + entry(
        "domain_id"@,
        domain_id@,
    ) + entry("media_session_id"@, media_session_id@)
}

fn push_session_ids(
    out: &mut Vec<(String, String)>,
    channel_id: &String,
    device_id: &String,
    domain_id: &String,
    media_session_id: &String,
)
    ensures
        entries_view(final(out)@) == entries_view(old(out)@) + session_ids(
            *channel_id,
            *device_id,
            *domain_id,
            *media_session_id,
        ),
{
    let ghost before = entries_view(out@);
    push_entry(out, "channel_id", channel_id.as_str());
    push_entry(out, "device_id", device_id.as_str());
    push_entry(out, "domain_id", domain_id.as_str());
    push_entry(out, "media_session_id", media_session_id.as_str());
    assert(entries_view(out@) =~= before + session_ids(
        *channel_id,
        *device_id,
        *domain_id,
        *media_session_id,
    ));
}

/// The action is what the service does with the event.
pub open spec fn action_for(tenant_configured: bool, e: GbEvent, a: EventAction) -> bool {
    if !tenant_configured {
        a is Ignore
    } else {
        match e {
            GbEvent::DeviceRegistered { device_id, registration_sequence, .. } => a matches EventAction::EnsureOnline { device_id: d, refresh, bootstrap }
                && d@ == device_id@ && refresh && bootstrap == Some(registration_sequence),
            GbEvent::DeviceUnregistered { device_id, .. } => a matches EventAction::MarkOffline { device_id: d } && d@ == device_id@,
            GbEvent::DevicePresenceChanged { device_id, presence, .. } => if presence == Presence::Online {
                a matches EventAction::EnsureOnline { device_id: d, refresh, bootstrap } && d@ == device_id@ && refresh
                    && bootstrap is None
            } else {
                a matches EventAction::MarkOffline { device_id: d } && d@ == device_id@
            },
            GbEvent::Keepalive { device_id, .. } => a matches EventAction::EnsureOnline { device_id: d, refresh, bootstrap }
                && d@ == device_id@ && !refresh && bootstrap is None,
            GbEvent::CatalogReceived { device_id, sn, sum_num, num, items, .. } => a matches EventAction::Catalog { device_id: d, sn: s, sum_num: t, num: n, items: i }
                && d@ == device_id@ && s@ == sn@ && t == sum_num && n == num && i@ == items@,
            GbEvent::DeviceInfoReceived { device_id, result, manufacturer, model, firmware, .. } => a matches EventAction::UpdateDeviceInfo { device_id: d, metadata }
                && d@ == device_id@ && entries_view(metadata@) == device_info_payload(
                result,
                manufacturer,
                model,
                firmware,
            ),
            GbEvent::DeviceStatusReceived { device_id, result, online, status, reason, invalid_equip, .. } => a matches EventAction::UpdateDeviceInfo { device_id: d, metadata }
                && d@ == device_id@ && entries_view(metadata@) == device_status_payload(
                result,
                online,
                status,
                reason,
                invalid_equip,
            ),
            GbEvent::AlarmReceived { device_id, sn, priority, method, alarm_type, time, info, .. } => a matches EventAction::Append { resolve_device, external_id, event_type, payload, outcome }
                && resolve_device && external_id@ == device_id@ && event_type@ == "Alarm"@
                && outcome is None && entries_view(payload@) == alarm_payload(
                sn,
                priority,
                method,
                alarm_type,
                time,
                info,
            ),
            GbEvent::MobilePositionReceived { device_id, sn, time, longitude, latitude, speed, direction, altitude, .. } => a matches EventAction::Append { resolve_device, external_id, event_type, payload, outcome }
                && resolve_device && external_id@ == device_id@ && event_type@
                == "MobilePosition"@ && outcome is None && entries_view(payload@)
                == position_payload(sn, time, longitude, latitude, speed, direction, altitude),
            GbEvent::DeviceControlResponseReceived { device_id, sn, result, .. } => a matches EventAction::Append { resolve_device, external_id, event_type, payload, outcome }
                && resolve_device && external_id@ == device_id@ && event_type@ == "DeviceControl"@
                && outcome == Some(outcome_of(opt_view(result))) && entries_view(payload@)
                == control_payload(sn, result),
            GbEvent::MediaSessionStarted { media_session_id, domain_id, device_id, channel_id, source, remote_ssrc, remote_port, remote_proto } => a matches EventAction::MediaSession { media_session_id: m, transition, external_id, event_type, payload }
                && m@ == media_session_id@ && transition is Start && external_id@ == device_id@
                && event_type@ == "MediaSessionStarted"@ && entries_view(payload@) == session_ids(
                channel_id,
                device_id,
                domain_id,
                media_session_id,
            ) + entry("remote_address"@, source@) + entry(
                "remote_port"@,
                decimal(remote_port as nat),
            ) + entry("remote_proto"@, remote_proto@) + opt_entry("remote_ssrc"@, remote_ssrc),
            GbEvent::MediaSessionStopped { media_session_id, domain_id, device_id, channel_id, source } => a matches EventAction::MediaSession { media_session_id: m, transition, external_id, event_type, payload }
                && m@ == media_session_id@ && transition is Stop && external_id@ == device_id@
                && event_type@ == "MediaSessionStopped"@ && entries_view(payload@) == session_ids(
                channel_id,
                device_id,
                domain_id,
                media_session_id,
            ) + opt_entry("remote_address"@, source),
            GbEvent::MediaSessionFailed { media_session_id, domain_id, device_id, channel_id, source, reason } => a matches EventAction::MediaSession { media_session_id: m, transition, external_id, event_type, payload }
                && m@ == media_session_id@ && (transition matches SessionTransition::Fail(r)
                && r@ == reason@) && external_id@ == device_id@ && event_type@
                == "MediaSessionFailed"@ && entries_view(payload@) == session_ids(
                channel_id,
                device_id,
                domain_id,
                media_session_id,
            ) + entry("reason"@, reason@) + opt_entry("remote_address"@, source),
            GbEvent::RecordInfoReceived { device_id, sn, num, sum_num, items, .. } => a matches EventAction::RecordInfo { device_id: d, sn: s, sum_num: t, num: n, items: i }
                && d@ == device_id@ && s@ == sn@ && t == sum_num && n == num && i@ == items@,
            GbEvent::CascadePlatformConnected { domain_id, platform_id, upstream, expires } => a matches EventAction::Append { resolve_device, external_id, event_type, payload, outcome }
                && !resolve_device && external_id@ == platform_id@ && event_type@
                == "CascadePlatformConnected"@ && outcome is None && entries_view(payload@)
                == entry("domain_id"@, domain_id@) + entry("expires"@, decimal(expires as nat))
                + entry("platform_id"@, platform_id@) + entry("upstream"@, upstream@),
            GbEvent::CascadePlatformDisconnected { domain_id, platform_id, reason } => a matches EventAction::Append { resolve_device, external_id, event_type, payload, outcome }
                && !resolve_device && external_id@ == platform_id@ && event_type@
                == "CascadePlatformDisconnected"@ && outcome is None && entries_view(payload@)
                == entry("domain_id"@, domain_id@) + entry("platform_id"@, platform_id@) + entry(
                "reason"@,
                reason@,
            ),
            GbEvent::CascadePlayRequested { domain_id, platform_id, bridge_id, upstream_call_id, upstream_from, upstream_to, target_user } => a matches EventAction::Append { resolve_device, external_id, event_type, payload, outcome }
                && !resolve_device && external_id@ == platform_id@ && event_type@
                == "CascadePlayRequested"@ && outcome is None && entries_view(payload@) == entry(
                "bridge_id"@,
                bridge_id@,
            ) + entry("domain_id"@, domain_id@) + entry("platform_id"@, platform_id@) + entry(
                "target_user"@,
                target_user@,
            ) + entry("upstream_call_id"@, upstream_call_id@) + entry(
                "upstream_from"@,
                upstream_from@,
            ) + entry("upstream_to"@, upstream_to@),
            GbEvent::CascadePlayStopped { domain_id, platform_id, bridge_id, reason } => a matches EventAction::Append { resolve_device, external_id, event_type, payload, outcome }
                && !resolve_device && external_id@ == platform_id@ && event_type@
                == "CascadePlayStopped"@ && outcome is None && entries_view(payload@) == entry(
                "bridge_id"@,
                bridge_id@,
            ) + entry("domain_id"@, domain_id@) + entry("platform_id"@, platform_id@) + entry(
                "reason"@,
                reason@,
            ),
        }
    }
}

fn append_action(
    external_id: &String,
    event_type: &str,
    payload: Vec<(String, String)>,
    resolve_device: bool,
    outcome: Option<CommandOutcome>,
) -> (a: EventAction)
    ensures
        a matches EventAction::Append { resolve_device: r, external_id: x, event_type: t, payload: p, outcome: o }
            && r == resolve_device && x@ == external_id@ && t@ == event_type@ && p == payload && o == outcome,
{
    EventAction::Append {
        resolve_device,
        external_id: copy_str(external_id.as_str()),
        event_type: copy_str(event_type),
        payload,
        outcome,
    }
}

/// Decides what the service does with a driver event. Without a configured
/// tenant every event is dropped.
pub fn plan_event(tenant_configured: bool, event: GbEvent) -> (a: EventAction)
    ensures
        action_for(tenant_configured, event, a),
{
    if !tenant_configured {
        return EventAction::Ignore;
    }
    match event {
        GbEvent::DeviceRegistered { device_id, registration_sequence, .. } => {
            EventAction::EnsureOnline {
                device_id,
                refresh: true,
                bootstrap: Some(registration_sequence),
            }
        },
        GbEvent::DeviceUnregistered { device_id, .. } => EventAction::MarkOffline { device_id },
        GbEvent::DevicePresenceChanged { device_id, presence, .. } => match presence {
            Presence::Online => EventAction::EnsureOnline { device_id, refresh: true, bootstrap: None },
            Presence::Offline => EventAction::MarkOffline { device_id },
        },
        GbEvent::Keepalive { device_id, .. } => {
            EventAction::EnsureOnline { device_id, refresh: false, bootstrap: None }
        },
        GbEvent::CatalogReceived { device_id, sn, sum_num, num, items, .. } => {
            EventAction::Catalog { device_id, sn, sum_num, num, items }
        },
        GbEvent::DeviceInfoReceived { device_id, result, manufacturer, model, firmware, .. } => {
            let mut m: Vec<(String, String)> = Vec::new();
            push_opt(&mut m, "firmware", &firmware);
            push_opt(&mut m, "info_result", &result);
            push_opt(&mut m, "manufacturer", &manufacturer);
            push_opt(&mut m, "model", &model);
            assert(entries_view(m@) =~= device_info_payload(result, manufacturer, model, firmware));
            EventAction::UpdateDeviceInfo { device_id, metadata: m }
        },
        GbEvent::DeviceStatusReceived {
            device_id,
            result,
            online,
            status,
            reason,
            invalid_equip,
            ..
        } => {
            let mut m: Vec<(String, String)> = Vec::new();
            push_opt(&mut m, "invalid_equip", &invalid_equip);
            push_opt(&mut m, "online", &online);
            push_opt(&mut m, "reason", &reason);
            push_opt(&mut m, "status", &status);
            push_opt(&mut m, "status_result", &result);
            assert(entries_view(m@) =~= device_status_payload(
                result,
                online,
                status,
                reason,
                invalid_equip,
            ));
            EventAction::UpdateDeviceInfo { device_id, metadata: m }
        },
        GbEvent::AlarmReceived { device_id, sn, priority, method, alarm_type, time, info, .. } => {
            let mut p: Vec<(String, String)> = Vec::new();
            push_opt(&mut p, "alarm_type", &alarm_type);
            push_opt(&mut p, "info", &info);
            push_opt(&mut p, "method", &method);
            push_opt(&mut p, "priority", &priority);
            push_entry(&mut p, "sn", sn.as_str());
            push_opt(&mut p, "time", &time);
            assert(entries_view(p@) =~= alarm_payload(sn, priority, method, alarm_type, time, info));
            append_action(&device_id, "Alarm", p, true, None)
        },
        GbEvent::MobilePositionReceived {
            device_id,
            sn,
            time,
            longitude,
            latitude,
            speed,
            direction,
            altitude,
            ..
        } => {
            let mut p: Vec<(String, String)> = Vec::new();
            push_opt(&mut p, "altitude", &altitude);
            push_opt(&mut p, "direction", &direction);
            push_opt(&mut p, "latitude", &latitude);
            push_opt(&mut p, "longitude", &longitude);
            push_entry(&mut p, "sn", sn.as_str());
            push_opt(&mut p, "speed", &speed);
            push_opt(&mut p, "time", &time);
            assert(entries_view(p@) =~= position_payload(
                sn,
                time,
                longitude,
                latitude,
                speed,
                direction,
                altitude,
            ));
            append_action(&device_id, "MobilePosition", p, true, None)
        },
        GbEvent::DeviceControlResponseReceived { device_id, sn, result, .. } => {
            let outcome = control_outcome(&result);
            let mut p: Vec<(String, String)> = Vec::new();
            push_opt(&mut p, "result", &result);
            push_entry(&mut p, "sn", sn.as_str());
            assert(entries_view(p@) =~= control_payload(sn, result));
            append_action(&device_id, "DeviceControl", p, true, Some(outcome))
        },
        GbEvent::MediaSessionStarted {
            media_session_id,
            domain_id,
            device_id,
            channel_id,
            source,
            remote_ssrc,
            remote_port,
            remote_proto,
        } => {
            let mut p: Vec<(String, String)> = Vec::new();
            push_session_ids(&mut p, &channel_id, &device_id, &domain_id, &media_session_id);
            push_entry(&mut p, "remote_address", source.as_str());
            let port = to_decimal(remote_port as u64);
            push_entry(&mut p, "remote_port", port.as_str());
            push_entry(&mut p, "remote_proto", remote_proto.as_str());
            push_opt(&mut p, "remote_ssrc", &remote_ssrc);
            let external_id = copy_str(device_id.as_str());
            let event_type = copy_str("MediaSessionStarted");
            assert(entries_view(p@) =~= session_ids(channel_id, device_id, domain_id, media_session_id)
                + entry("remote_address"@, source@) + entry("remote_port"@, decimal(remote_port as nat))
                + entry("remote_proto"@, remote_proto@) + opt_entry("remote_ssrc"@, remote_ssrc));
            EventAction::MediaSession {
                media_session_id,
                transition: SessionTransition::Start,
                external_id,
                event_type,
                payload: p,
            }
        },
        GbEvent::MediaSessionStopped { media_session_id, domain_id, device_id, channel_id, source } => {
            let mut p: Vec<(String, String)> = Vec::new();
            push_session_ids(&mut p, &channel_id, &device_id, &domain_id, &media_session_id);
            push_opt(&mut p, "remote_address", &source);
            let external_id = copy_str(device_id.as_str());
            let event_type = copy_str("MediaSessionStopped");
            EventAction::MediaSession {
                media_session_id,
                transition: SessionTransition::Stop,
                external_id,
                event_type,
                payload: p,
            }
        },
        GbEvent::MediaSessionFailed {
            media_session_id,
            domain_id,
            device_id,
            channel_id,
            source,
            reason,
        } => {
            let mut p: Vec<(String, String)> = Vec::new();
            push_session_ids(&mut p, &channel_id, &device_id, &domain_id, &media_session_id);
            push_entry(&mut p, "reason", reason.as_str());
            push_opt(&mut p, "remote_address", &source);
            let external_id = copy_str(device_id.as_str());
            let event_type = copy_str("MediaSessionFailed");
            assert(entries_view(p@) =~= session_ids(channel_id, device_id, domain_id, media_session_id)
                + entry("reason"@, reason@) + opt_entry("remote_address"@, source));
            EventAction::MediaSession {
                media_session_id,
                transition: SessionTransition::Fail(reason),
                external_id,
                event_type,
                payload: p,
            }
        },
        GbEvent::RecordInfoReceived { device_id, sn, num, sum_num, items, .. } => {
            EventAction::RecordInfo { device_id, sn, sum_num, num, items }
        },
        GbEvent::CascadePlatformConnected { domain_id, platform_id, upstream, expires } => {
            let mut p: Vec<(String, String)> = Vec::new();
            push_entry(&mut p, "domain_id", domain_id.as_str());
            let ex = to_decimal(expires);
            push_entry(&mut p, "expires", ex.as_str());
            push_entry(&mut p, "platform_id", platform_id.as_str());
            push_entry(&mut p, "upstream", upstream.as_str());
            assert(entries_view(p@) =~= entry("domain_id"@, domain_id@) + entry("expires"@, decimal(expires as nat))
                + entry("platform_id"@, platform_id@) + entry("upstream"@, upstream@));
            append_action(&platform_id, "CascadePlatformConnected", p, false, None)
        },
        GbEvent::CascadePlatformDisconnected { domain_id, platform_id, reason } => {
            let mut p: Vec<(String, String)> = Vec::new();
            push_entry(&mut p, "domain_id", domain_id.as_str());
            push_entry(&mut p, "platform_id", platform_id.as_str());
            push_entry(&mut p, "reason", reason.as_str());
            assert(entries_view(p@) =~= entry("domain_id"@, domain_id@) + entry("platform_id"@, platform_id@)
                + entry("reason"@, reason@));
            append_action(&platform_id, "CascadePlatformDisconnected", p, false, None)
        },
        GbEvent::CascadePlayRequested {
            domain_id,
            platform_id,
            bridge_id,
            upstream_call_id,
            upstream_from,
            upstream_to,
            target_user,
        } => {
            let mut p: Vec<(String, String)> = Vec::new();
            push_entry(&mut p, "bridge_id", bridge_id.as_str());
            push_entry(&mut p, "domain_id", domain_id.as_str());
            push_entry(&mut p, "platform_id", platform_id.as_str());
            push_entry(&mut p, "target_user", target_user.as_str());
            push_entry(&mut p, "upstream_call_id", upstream_call_id.as_str());
            push_entry(&mut p, "upstream_from", upstream_from.as_str());
            push_entry(&mut p, "upstream_to", upstream_to.as_str());
            assert(entries_view(p@) =~= entry("bridge_id"@, bridge_id@) + entry("domain_id"@, domain_id@)
                + entry("platform_id"@, platform_id@) + entry("target_user"@, target_user@)
                + entry("upstream_call_id"@, upstream_call_id@) + entry("upstream_from"@, upstream_from@)
                + entry("upstream_to"@, upstream_to@));
            append_action(&platform_id, "CascadePlayRequested", p, false, None)
        },
        GbEvent::CascadePlayStopped { domain_id, platform_id, bridge_id, reason } => {
            let mut p: Vec<(String, String)> = Vec::new();
            push_entry(&mut p, "bridge_id", bridge_id.as_str());
            push_entry(&mut p, "domain_id", domain_id.as_str());
            push_entry(&mut p, "platform_id", platform_id.as_str());
            push_entry(&mut p, "reason", reason.as_str());
            assert(entries_view(p@) =~= entry("bridge_id"@, bridge_id@) + entry("domain_id"@, domain_id@)
                + entry("platform_id"@, platform_id@) + entry("reason"@, reason@));
            append_action(&platform_id, "CascadePlayStopped", p, false, None)
        },
    }
}

/// With a tenant configured, a presence report sets the device as reported:
/// an Online report brings that device online with a refresh of its
/// catalog and never marks it offline; an Offline report marks that device
/// offline.
pub proof fn law_presence_follows_report(
    device_id: String,
    presence: Presence,
    source: String,
    a: EventAction,
)
    requires
        action_for(true, GbEvent::DevicePresenceChanged { device_id, presence, source }, a),
    ensures
        presence == Presence::Online <==> (a matches EventAction::EnsureOnline {
            device_id: d,
            refresh,
            ..
        } && d@ == device_id@ && refresh),
        presence == Presence::Offline <==> (a matches EventAction::MarkOffline { device_id: d }
            && d@ == device_id@),
{
}

/// A device is only ever marked offline because it unregistered or
/// reported itself offline.
pub proof fn law_offline_only_on_departure(tenant_configured: bool, e: GbEvent, a: EventAction)
    requires
        action_for(tenant_configured, e, a),
        a is MarkOffline,
    ensures
        e is DeviceUnregistered || (e matches GbEvent::DevicePresenceChanged { presence, .. }
            && presence == Presence::Offline),
{
}

} // verus!
