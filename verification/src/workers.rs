//! Routing of the commands that an owner node takes from its inbox: which
//! transport a command goes to, and what the handler answers once the
//! transport has been tried.
use crate::api::auth::{Principal, PrincipalKind};
use crate::text::{copy_str, has_prefix, push_str, starts_with, str_eq, strings_view};
use vstd::prelude::*;

verus! {

/// The part of a command's payload that routing looks at: its variant and,
/// where the variant names one, the channel it is aimed at.
#[derive(Clone, Copy, Debug)]
pub enum PayloadShape {
    /// A catalog, info or status query.
    Query { channel_id: Option<u128> },
    /// A pan-tilt-zoom move.
    Ptz { channel_id: u128 },
    /// A preset operation.
    Preset { channel_id: u128 },
    /// A device control such as a reboot or a record switch.
    DeviceControl { channel_id: Option<u128> },
    /// Any other payload (media sessions, plugin commands).
    Other,
}

/// Whether a payload is carried by the GB28181 command buses.
pub open spec fn is_gb28181_payload(p: PayloadShape) -> bool {
    !(p is Other)
}

/// The channel a payload is aimed at, if it names one.
pub open spec fn payload_channel(p: PayloadShape) -> Option<u128> {
    match p {
        PayloadShape::Query { channel_id } => channel_id,
        PayloadShape::Ptz { channel_id } => Some(channel_id),
        PayloadShape::Preset { channel_id } => Some(channel_id),
        PayloadShape::DeviceControl { channel_id } => channel_id,
        PayloadShape::Other => None,
    }
}

/// Whether the command goes to the GB28181 command buses rather than to a
/// protocol plugin.
pub fn is_gb28181_command(payload: &PayloadShape) -> (b: bool)
    ensures
        b == is_gb28181_payload(*payload),
{
    match payload {
        PayloadShape::Other => false,
        _ => true,
    }
}

/// The channel that a GB28181 command must be resolved against.
pub fn channel_id_from_payload(payload: &PayloadShape) -> (r: Option<u128>)
    ensures
        r == payload_channel(*payload),
{
    match payload {
        PayloadShape::Query { channel_id } => *channel_id,
        PayloadShape::Ptz { channel_id } => Some(*channel_id),
        PayloadShape::Preset { channel_id } => Some(*channel_id),
        PayloadShape::DeviceControl { channel_id } => *channel_id,
        PayloadShape::Other => None,
    }
}

/// How a command left the node.
#[derive(Debug)]
pub enum CommandDispatch {
    /// Handed to a transport.
    Sent,
    /// No transport took it; the outcome stays unknown.
    TransportFailed { reason: String },
}

/// The handler's answer for one command.
#[derive(Debug)]
pub enum CommandResult {
    /// Refused before any transport was tried.
    Rejected { reason: String },
    /// Taken, with how it was dispatched and an optional JSON payload.
    Accepted { dispatch: CommandDispatch, payload: Option<String> },
}

/// The answer is a refusal with exactly this reason.
pub open spec fn rejected_with(r: CommandResult, reason: Seq<char>) -> bool {
    r matches CommandResult::Rejected { reason: why } && why@ == reason
}

/// The answer is "sent", with exactly this payload.
pub open spec fn sent_with(r: CommandResult, payload: Seq<char>) -> bool {
    &&& r matches CommandResult::Accepted { dispatch, payload: Some(p) }
    &&& dispatch is Sent
    &&& p@ == payload
}

/// The answer is a transport failure with exactly this reason and no payload.
pub open spec fn failed_with(r: CommandResult, reason: Seq<char>) -> bool {
    &&& r matches CommandResult::Accepted { dispatch, payload: None }
    &&& dispatch matches CommandDispatch::TransportFailed { reason: why }
    &&& why@ == reason
}

/// Payload recorded for a GB28181 command that reached a bus.
pub open spec fn gb28181_payload(kind: Seq<char>) -> Seq<char> {
    "{\"command_kind\":\""@ + kind + "\",\"protocol\":\"gb28181\"}"@
}

/// Some bus took the command.
pub open spec fn any_sent(sends: Seq<Result<(), String>>) -> bool {
    exists|i: int| 0 <= i < sends.len() && (#[trigger] sends[i]) is Ok
}

/// The error of the last bus that refused the command.
pub open spec fn last_send_error(sends: Seq<Result<(), String>>) -> Option<Seq<char>>
    decreases sends.len(),
{
    if sends.len() == 0 {
        None
    } else {
        match sends.last() {
            Ok(_) => last_send_error(sends.drop_last()),
            Err(e) => Some(e@),
        }
    }
}

/// What the handler answers for a GB28181 command.
pub open spec fn gb28181_answer(
    kind: Seq<char>,
    bus_count: nat,
    target_resolved: bool,
    sends: Seq<Result<(), String>>,
    r: CommandResult,
) -> bool {
    if bus_count == 0 {
        rejected_with(r, "gb28181 command bus not available"@)
    } else if !target_resolved {
        rejected_with(r, "unable to resolve gb28181 command target"@)
    } else if any_sent(sends) {
        sent_with(r, gb28181_payload(kind))
    } else {
        failed_with(
            r,
            match last_send_error(sends) {
                Some(e) => e,
                None => "all gb28181 command buses closed"@,
            },
        )
    }
}

fn rejected(reason: &str) -> (r: CommandResult)
    ensures
        rejected_with(r, reason@),
{
    CommandResult::Rejected { reason: copy_str(reason) }
}

/// The answer for a GB28181 command, given how many listener buses the node
/// has, whether the device (a GB28181 device with a valid external id) was
/// found, and what each bus said when the command was fanned out to it, in
/// bus order. A device registers with one listener only, so one bus taking
/// the command is enough.
pub fn gb28181_outcome(
    kind: &str,
    bus_count: usize,
    target_resolved: bool,
    sends: &Vec<Result<(), String>>,
) -> (r: CommandResult)
    ensures
        gb28181_answer(kind@, bus_count as nat, target_resolved, sends@, r),
{
    if bus_count == 0 {
        return rejected("gb28181 command bus not available");
    }
    if !target_resolved {
        return rejected("unable to resolve gb28181 command target");
    }
    let mut enqueued = false;
    let mut last_error: Option<String> = None;
    let mut i: usize = 0;
    while i < sends.len()
        invariant
            i <= sends.len(),
            enqueued == any_sent(sends@.take(i as int)),
            match last_error {
                Some(e) => last_send_error(sends@.take(i as int)) == Some(e@),
                None => last_send_error(sends@.take(i as int)) is None,
            },
        decreases sends.len() - i,
    {
        let ghost before = sends@.take(i as int);
        assert(sends@.take(i + 1).drop_last() =~= before);
        match &sends[i] {
            Ok(()) => {
                enqueued = true;
                assert(sends@.take(i + 1)[i as int] is Ok);
            },
            Err(e) => {
                last_error = Some(e.clone());
                if !enqueued {
                    assert forall|k: int| 0 <= k < i + 1 implies !(#[trigger] sends@.take(i + 1)[k] is Ok) by {
                        if k < i {
                            assert(sends@.take(i + 1)[k] == before[k]);
                        }
                    }
                }
            },
        }
        if enqueued {
            assert(any_sent(sends@.take(i + 1))) by {
                if !(sends@[i as int] is Ok) {
                    let k = choose|k: int| 0 <= k < i && (#[trigger] before[k]) is Ok;
                    assert(sends@.take(i + 1)[k] == before[k]);
                }
            }
        }
        i = i + 1;
    }
    assert(sends@.take(sends.len() as int) =~= sends@);
    if enqueued {
        let mut payload = copy_str("{\"command_kind\":\"");
        push_str(&mut payload, kind);
        push_str(&mut payload, "\",\"protocol\":\"gb28181\"}");
        CommandResult::Accepted { dispatch: CommandDispatch::Sent, payload: Some(payload) }
    } else {
        let reason = match last_error {
            Some(e) => e,
            None => copy_str("all gb28181 command buses closed"),
        };
        CommandResult::Accepted {
            dispatch: CommandDispatch::TransportFailed { reason },
            payload: None,
        }
    }
}

/// The protocol plugin that serves a command kind.
#[derive(Clone, Copy, Debug, PartialEq, Eq, Structural)]
pub enum PluginTarget {
    /// The built-in GB28181 media plugin.
    Gb28181,
    /// The built-in ONVIF plugin.
    Onvif,
}

/// The registered name of a plugin.
pub open spec fn plugin_name_of(t: PluginTarget) -> Seq<char> {
    match t {
        PluginTarget::Gb28181 => "cheetah/gb28181"@,
        PluginTarget::Onvif => "cheetah/onvif"@,
    }
}

/// The media-session kinds that the GB28181 plugin serves.
pub open spec fn is_gb28181_media_kind(kind: Seq<char>) -> bool {
    ||| kind == "StartLive"@
    ||| kind == "StopMediaSession"@
    ||| kind == "StartPlayback"@
    ||| kind == "StartTalk"@
    ||| kind == "ControlPlayback"@
    ||| kind == "process_sip"@
}

/// The plugin that serves a command kind, if any does.
pub open spec fn plugin_for_kind(kind: Seq<char>) -> Option<PluginTarget> {
    if is_gb28181_media_kind(kind) {
        Some(PluginTarget::Gb28181)
    } else if has_prefix(kind, "Onvif"@) || has_prefix(kind, "onvif"@) {
        Some(PluginTarget::Onvif)
    } else {
        None
    }
}

impl PluginTarget {
    /// The plugin's registered name.
    pub fn name(&self) -> (s: String)
        ensures
            s@ == plugin_name_of(*self),
    {
        match self {
            PluginTarget::Gb28181 => copy_str("cheetah/gb28181"),
            PluginTarget::Onvif => copy_str("cheetah/onvif"),
        }
    }
}

/// The plugin that a command kind is routed to, or the refusal of a kind
/// that no plugin serves.
pub fn plugin_route(kind: &str) -> (r: Result<PluginTarget, CommandResult>)
    ensures
        match plugin_for_kind(kind@) {
            Some(t) => r == Ok::<PluginTarget, CommandResult>(t),
            None => r matches Err(e) && rejected_with(e, "unsupported command kind: "@ + kind@),
        },
{
    if str_eq(kind, "StartLive") || str_eq(kind, "StopMediaSession") || str_eq(kind, "StartPlayback")
        || str_eq(kind, "StartTalk") || str_eq(kind, "ControlPlayback") || str_eq(kind, "process_sip") {
        Ok(PluginTarget::Gb28181)
    } else if starts_with(kind, "Onvif") || starts_with(kind, "onvif") {
        Ok(PluginTarget::Onvif)
    } else {
        let mut reason = copy_str("unsupported command kind: ");
        push_str(&mut reason, kind);
        Err(CommandResult::Rejected { reason })
    }
}

/// Payload recorded for a command that a plugin took.
pub open spec fn plugin_payload(kind: Seq<char>, t: PluginTarget) -> Seq<char> {
    "{\"command_kind\":\""@ + kind + "\",\"plugin\":\""@ + plugin_name_of(t) + "\"}"@
}

/// The answer for a command routed to `target`: `handled` is `None` when no
/// instance of the plugin is running, else what the plugin's command handler
/// returned, its error rendered as text.
pub fn plugin_outcome(kind: &str, target: PluginTarget, handled: Option<Result<(), String>>) -> (r: CommandResult)
    ensures
        match handled {
            None => rejected_with(r, "plugin not found: "@ + plugin_name_of(target)),
            Some(Ok(())) => sent_with(r, plugin_payload(kind@, target)),
            Some(Err(e)) => failed_with(r, e@),
        },
{
    let name = target.name();
    match handled {
        None => {
            let mut reason = copy_str("plugin not found: ");
            push_str(&mut reason, name.as_str());
            CommandResult::Rejected { reason }
        },
        Some(Ok(())) => {
            let mut payload = copy_str("{\"command_kind\":\"");
            push_str(&mut payload, kind);
            push_str(&mut payload, "\",\"plugin\":\"");
            push_str(&mut payload, name.as_str());
            push_str(&mut payload, "\"}");
            CommandResult::Accepted { dispatch: CommandDispatch::Sent, payload: Some(payload) }
        },
        Some(Err(e)) => CommandResult::Accepted {
            dispatch: CommandDispatch::TransportFailed { reason: e },
            payload: None,
        },
    }
}

/// How far a delivered domain event got in the operation dispatcher.
#[derive(Clone, Debug)]
pub enum DispatchStage {
    /// The envelope did not decode as a domain event.
    Undecodable,
    /// The event is not an `OperationSubmitted` event.
    NotSubmitted,
    /// No unit of work could be started on storage.
    StorageUnavailable,
    /// The operation's command was dispatched, or dispatching failed.
    Dispatched { ok: bool },
}

/// The answer to the message bus for a delivery.
#[derive(Clone, Debug)]
pub enum DeliveryReply {
    /// Done with: the bus drops the message.
    Ack,
    /// Not done: the bus redelivers the message; holds the reason given.
    Nak(String),
}

/// Answers a delivery: events that cannot or need not be handled are
/// acknowledged, as is a dispatched operation; a storage or dispatch
/// failure is refused so that the event comes again.
pub fn delivery_reply(stage: &DispatchStage) -> (r: DeliveryReply)
    ensures
        match *stage {
            DispatchStage::StorageUnavailable => r matches DeliveryReply::Nak(m) && m@ == "storage begin failed"@,
            DispatchStage::Dispatched { ok: false } => r matches DeliveryReply::Nak(m) && m@ == "dispatch failed"@,
            _ => r is Ack,
        },
{
    match stage {
        DispatchStage::StorageUnavailable => DeliveryReply::Nak(copy_str("storage begin failed")),
        DispatchStage::Dispatched { ok } => if *ok {
            DeliveryReply::Ack
        } else {
            DeliveryReply::Nak(copy_str("dispatch failed"))
        },
        _ => DeliveryReply::Ack,
    }
}

/// The service principal under which a node dispatches operations: named
/// `node-<node>-operation-dispatcher`, holding the `system` scope.
pub fn dispatcher_principal(node: &str) -> (p: Principal)
    ensures
        p.id@ == "node-"@ + node@ + "-operation-dispatcher"@,
        p.kind == PrincipalKind::Service,
        strings_view(p.scopes@) == seq!["system"@],
{
    let mut id = copy_str("node-");
    push_str(&mut id, node);
    push_str(&mut id, "-operation-dispatcher");
    let mut scopes: Vec<String> = Vec::new();
    scopes.push(copy_str("system"));
    assert(strings_view(scopes@) =~= seq!["system"@]);
    Principal { id, kind: PrincipalKind::Service, scopes }
}

/// The peers that a drain pass drains: the alive nodes other than this one
/// that are marked draining, in listing order.
pub open spec fn draining_peers(alive: Seq<(u128, bool)>, this_node: u128) -> Seq<u128>
    decreases alive.len(),
{
    if alive.len() == 0 {
        Seq::empty()
    } else {
        let n = alive.last();
        draining_peers(alive.drop_last(), this_node) + (if n.0 != this_node && n.1 {
            seq![n.0]
        } else {
            Seq::empty()
        })
    }
}

/// Picks, among the alive nodes (identifier and whether it is draining), the
/// peers whose devices are to be migrated away.
pub fn peers_to_drain(alive: &Vec<(u128, bool)>, this_node: u128) -> (out: Vec<u128>)
    ensures
        out@ == draining_peers(alive@, this_node),
{
    let mut out: Vec<u128> = Vec::new();
    let mut i: usize = 0;
    while i < alive.len()
        invariant
            i <= alive@.len(),
            out@ == draining_peers(alive@.take(i as int), this_node),
        decreases alive.len() - i,
    {
        let (node, draining) = alive[i];
        assert(alive@.take(i + 1).drop_last() =~= alive@.take(i as int));
        if node != this_node && draining {
            out.push(node);
        }
        assert(out@ =~= draining_peers(alive@.take(i + 1), this_node));
        i = i + 1;
    }
    assert(alive@.take(i as int) =~= alive@);
    out
}

/// The media-session kinds StartLive, StopMediaSession, StartPlayback,
/// StartTalk, ControlPlayback and process_sip are routed to the GB28181
/// plugin, and no other kind is; any other kind starting with `Onvif` or
/// `onvif` goes to the ONVIF plugin, and the rest go nowhere.
pub proof fn law_plugin_routes(kind: Seq<char>)
    ensures
        (kind == "StartLive"@ || kind == "StopMediaSession"@ || kind == "StartPlayback"@ || kind
            == "StartTalk"@ || kind == "ControlPlayback"@ || kind == "process_sip"@) <==> plugin_for_kind(
            kind,
        ) == Some(PluginTarget::Gb28181),
        !(kind == "StartLive"@ || kind == "StopMediaSession"@ || kind == "StartPlayback"@ || kind
            == "StartTalk"@ || kind == "ControlPlayback"@ || kind == "process_sip"@) ==> (
        plugin_for_kind(kind) == Some(PluginTarget::Onvif) <==> (has_prefix(kind, "Onvif"@)
            || has_prefix(kind, "onvif"@))),
        plugin_for_kind(kind) is None <==> !(kind == "StartLive"@ || kind == "StopMediaSession"@
            || kind == "StartPlayback"@ || kind == "StartTalk"@ || kind == "ControlPlayback"@ || kind
            == "process_sip"@ || has_prefix(kind, "Onvif"@) || has_prefix(kind, "onvif"@)),
{
}

/// A device registers with one listener only, so one bus taking a resolved
/// command is enough, whichever bus it is and whatever the others answered:
/// the command counts as sent.
pub proof fn law_one_accepting_bus_suffices(
    kind: Seq<char>,
    bus_count: nat,
    sends: Seq<Result<(), String>>,
    i: int,
    r: CommandResult,
)
    requires
        bus_count > 0,
        0 <= i < sends.len(),
        sends[i] is Ok,
        gb28181_answer(kind, bus_count, true, sends, r),
    ensures
        sent_with(r, gb28181_payload(kind)),
{
    assert(any_sent(sends));
}

} // verus!
