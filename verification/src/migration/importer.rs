//! Planning of an import run: which records are taken, what they become,
//! and the counts reported to the operator.
use crate::migration::error::MigrationError;
use crate::migration::mappers::{
    channel_error, channel_plan_of, device_like_error, device_plan_of, map_record, parse_protocol,
    is_channel_event, is_device_event, protocol_of, secret_actions, ChannelPlan, DevicePlan,
    MappedAggregate, OutboxEvent, ParentProtocols, Protocol,
};
use crate::migration::model::{record_error, secret_names, EntityType, OldRecord};
use crate::text::{
    chars_of, copy_str, find_char, lemma_split_step, split_pieces, str_eq, string_from_range,
    strings_view, trim, trim_bounds,
};
use vstd::prelude::*;

verus! {

/// Migration execution options.
#[derive(Clone, Debug)]
pub struct ImportOptions {
    /// Maximum records to process before committing a checkpoint.
    pub checkpoint_every: usize,
    /// Only import records whose external ID appears here (empty = all).
    pub cutover_ids: Vec<String>,
    /// If true, validate and summarize but do not write to the target database.
    pub dry_run: bool,
    /// If true, skip records that already exist in the target database.
    pub skip_existing: bool,
}

impl Default for ImportOptions {
    fn default() -> (o: ImportOptions)
        ensures
            o.checkpoint_every == 100,
            o.cutover_ids@.len() == 0,
            !o.dry_run,
            o.skip_existing,
    {
        ImportOptions {
            checkpoint_every: 100,
            cutover_ids: Vec::new(),
            dry_run: false,
            skip_existing: true,
        }
    }
}

/// Result of an import run.
#[derive(Clone, Debug)]
pub struct ImportResult {
    /// Number of records read from the source.
    pub records_read: usize,
    /// Number of records successfully mapped and imported/validated.
    pub records_imported: usize,
    /// Number of records skipped because they were filtered out by cutover.
    pub records_skipped: usize,
    /// Number of invalid records.
    pub records_invalid: usize,
    /// Number of records that conflicted with an existing aggregate.
    pub records_conflicting: usize,
    /// Number of records left alone because their aggregate was already
    /// stored and existing ones are skipped.
    pub records_skipped_existing: usize,
    /// Number of records carrying plaintext secrets that must be re-entered.
    pub records_with_secrets: usize,
    /// Human-readable action items for the operator.
    pub action_items: Vec<String>,
    /// Number of taken records of each entity type, for the types seen, in
    /// the order of the types' names.
    pub counts_by_kind: Vec<(EntityType, usize)>,
}

/// What an import run writes, and what it reports before writing.
#[derive(Clone, Debug)]
pub struct ImportPlan {
    /// Counts and action items gathered while mapping.
    pub result: ImportResult,
    /// Devices, platforms and endpoints to write, in source order.
    pub devices: Vec<DevicePlan>,
    /// Channels to write, in source order.
    pub channels: Vec<ChannelPlan>,
    /// The outbox event appended with each device when it is written:
    /// `device_events[j]` goes with `devices[j]`.
    pub device_events: Vec<OutboxEvent>,
    /// The outbox event appended with each channel when it is written:
    /// `channel_events[j]` goes with `channels[j]`.
    pub channel_events: Vec<OutboxEvent>,
}

/// The entity type stands for a device.
pub open spec fn is_device_like(t: EntityType) -> bool {
    t == EntityType::Device || t == EntityType::Gb28181Platform || t == EntityType::OnvifEndpoint
}

/// What decides which records an import run takes: the cutover list
/// (empty for all records) and the parent devices that channels may name,
/// by tenant and external identifier.
pub struct ImportScope {
    /// External identifiers to import, or none for all.
    pub cutover: Seq<Seq<char>>,
    /// Parent devices known to the run.
    pub known_parents: Set<(Seq<char>, Seq<char>)>,
}

/// The cutover list lets the record through.
pub open spec fn cutover_admits(scope: ImportScope, r: OldRecord) -> bool {
    scope.cutover.len() == 0 || scope.cutover.contains(r.external_id@)
}

/// The record validates and maps without error; a channel must also name a
/// known parent device.
pub open spec fn maps_cleanly(scope: ImportScope, r: OldRecord) -> bool {
    &&& record_error(r) is None
    &&& (r.entity_type == EntityType::Channel ==> channel_error(r) is None
        && scope.known_parents.contains((r.tenant_id@, r.parent_device_id@)))
    &&& (is_device_like(r.entity_type) ==> device_like_error(r) is None)
}

/// The record is taken by the import.
pub open spec fn taken(scope: ImportScope, r: OldRecord) -> bool {
    cutover_admits(scope, r) && maps_cleanly(scope, r)
}

/// The device-like records that the import takes, in order.
pub open spec fn taken_devices(rs: Seq<OldRecord>, scope: ImportScope) -> Seq<OldRecord> {
    rs.filter(|r: OldRecord| taken(scope, r) && is_device_like(r.entity_type))
}

/// The channel records that the import takes, in order.
pub open spec fn taken_channels(rs: Seq<OldRecord>, scope: ImportScope) -> Seq<OldRecord> {
    rs.filter(|r: OldRecord| taken(scope, r) && r.entity_type == EntityType::Channel)
}

/// Number of records that the import takes with the given entity type.
pub open spec fn kind_count(rs: Seq<OldRecord>, scope: ImportScope, t: EntityType) -> nat {
    rs.filter(|r: OldRecord| taken(scope, r) && r.entity_type == t).len()
}

/// Number of records that the cutover list filters out.
pub open spec fn skipped_count(rs: Seq<OldRecord>, scope: ImportScope) -> nat {
    rs.filter(|r: OldRecord| !cutover_admits(scope, r)).len()
}

/// Number of records that pass the cutover list but do not map cleanly.
pub open spec fn invalid_count(rs: Seq<OldRecord>, scope: ImportScope) -> nat {
    rs.filter(|r: OldRecord| cutover_admits(scope, r) && !maps_cleanly(scope, r)).len()
}

/// Number of taken records that name secret fields.
pub open spec fn secret_count(rs: Seq<OldRecord>, scope: ImportScope) -> nat {
    rs.filter(|r: OldRecord| taken(scope, r) && secret_names(r.secret_fields@).len() > 0).len()
}

/// Entity types in the order of their names.
pub open spec fn kinds_in_name_order() -> Seq<EntityType> {
    seq![
        EntityType::Channel,
        EntityType::Device,
        EntityType::Gb28181Platform,
        EntityType::OnvifEndpoint,
        EntityType::SecretReference,
        EntityType::Tenant,
        EntityType::Unknown,
    ]
}

/// The first `k` rows of the `counts_by_kind` table.
pub open spec fn kind_table_upto(rs: Seq<OldRecord>, scope: ImportScope, k: nat) -> Seq<
    (EntityType, nat),
>
    decreases k,
{
    if k == 0 {
        Seq::empty()
    } else {
        let prev = kind_table_upto(rs, scope, (k - 1) as nat);
        let t = kinds_in_name_order()[k - 1];
        let c = kind_count(rs, scope, t);
        if c > 0 {
            prev.push((t, c))
        } else {
            prev
        }
    }
}

/// The `counts_by_kind` table: the types taken at least once, with their
/// counts, in the order of the types' names.
pub open spec fn kind_table(rs: Seq<OldRecord>, scope: ImportScope) -> Seq<(EntityType, nat)> {
    kind_table_upto(rs, scope, 7)
}

/// Action items that a taken record contributes.
pub open spec fn record_actions(r: OldRecord) -> Seq<Seq<char>> {
    if r.entity_type == EntityType::Channel {
        secret_actions("channel "@, r)
    } else if is_device_like(r.entity_type) {
        secret_actions("device "@, r)
    } else {
        Seq::empty()
    }
}

/// Action items of the run, in source order.
pub open spec fn all_actions(rs: Seq<OldRecord>, scope: ImportScope) -> Seq<Seq<char>>
    decreases rs.len(),
{
    if rs.len() == 0 {
        Seq::empty()
    } else {
        let prev = all_actions(rs.drop_last(), scope);
        if taken(scope, rs.last()) {
            prev + record_actions(rs.last())
        } else {
            prev
        }
    }
}

/// The protocols of the device-like records that validate, keyed by tenant
/// and external identifier; a later record replaces an earlier one.
pub open spec fn parents_of(rs: Seq<OldRecord>) -> Map<(Seq<char>, Seq<char>), Protocol>
    decreases rs.len(),
{
    if rs.len() == 0 {
        Map::empty()
    } else {
        let prev = parents_of(rs.drop_last());
        let r = rs.last();
        if record_error(r) is None && is_device_like(r.entity_type) && protocol_of(r.protocol@) is Some {
            prev.insert((r.tenant_id@, r.external_id@), protocol_of(r.protocol@)->0)
        } else {
            prev
        }
    }
}

/// Builds the map from old-system `(tenant, external_id)` to the protocol of
/// device-like records, used to infer the parent protocol of channels.
pub fn build_parent_protocols(records: &Vec<OldRecord>) -> (m: ParentProtocols)
    ensures
        m@ == parents_of(records@),
{
    let mut map = ParentProtocols::new();
    let mut i: usize = 0;
    while i < records.len()
        invariant
            i <= records@.len(),
            map@ == parents_of(records@.take(i as int)),
        decreases records.len() - i,
    {
        let record = &records[i];
        assert(records@.take(i + 1).drop_last() =~= records@.take(i as int));
        if record.validate().is_ok() {
            let device_like = match record.entity_type {
                EntityType::Device | EntityType::Gb28181Platform | EntityType::OnvifEndpoint => true,
                _ => false,
            };
            if device_like {
                if let Ok(protocol) = parse_protocol(record.protocol.as_str()) {
                    map.insert(
                        copy_str(record.tenant_id.as_str()),
                        copy_str(record.external_id.as_str()),
                        protocol,
                    );
                }
            }
        }
        i = i + 1;
    }
    assert(records@.take(i as int) =~= records@);
    map
}

fn cutover_contains(cutover: &Vec<String>, id: &String) -> (b: bool)
    ensures
        b == (strings_view(cutover@).len() == 0 || strings_view(cutover@).contains(id@)),
{
    if cutover.len() == 0 {
        return true;
    }
    let mut i: usize = 0;
    while i < cutover.len()
        invariant
            i <= cutover@.len(),
            forall|j: int| 0 <= j < i ==> (#[trigger] cutover@[j])@ != id@,
        decreases cutover.len() - i,
    {
        if str_eq(cutover[i].as_str(), id.as_str()) {
            assert(strings_view(cutover@)[i as int] == id@);
            return true;
        }
        i = i + 1;
    }
    proof {
        if strings_view(cutover@).contains(id@) {
            let j = choose|j: int|
                0 <= j < strings_view(cutover@).len() && strings_view(cutover@)[j] == id@;
            assert(cutover@[j]@ == id@);
        }
    }
    false
}

/// The identifiers that a cutover list adds to `acc`, line by line: each
/// line trimmed, blank lines and lines starting with `#` left out, and an
/// identifier already listed not repeated.
pub open spec fn cutover_fold(acc: Seq<Seq<char>>, lines: Seq<Seq<char>>) -> Seq<Seq<char>>
    decreases lines.len(),
{
    if lines.len() == 0 {
        acc
    } else {
        let t = trim(lines[0]);
        let next = if t.len() > 0 && t[0] != '#' && !acc.contains(t) {
            acc.push(t)
        } else {
            acc
        };
        cutover_fold(next, lines.drop_first())
    }
}

/// The identifiers of a cutover file's text, in the order of their first
/// line.
pub open spec fn cutover_list(content: Seq<char>) -> Seq<Seq<char>> {
    cutover_fold(Seq::empty(), split_pieces(content, '\n'))
}

/// Reads the text of a cutover file: one external identifier per line,
/// surrounding whitespace ignored, blank lines and `#` comments skipped,
/// each identifier kept once.
pub fn parse_cutover_list(content: &str) -> (ids: Vec<String>)
    ensures
        strings_view(ids@) == cutover_list(content@),
{
    let v = chars_of(content);
    let ghost whole = cutover_list(v@);
    let mut out: Vec<String> = Vec::new();
    let mut st: usize = 0;
    let mut done = false;
    assert(v@.skip(0) =~= v@);
    assert(strings_view(out@) =~= Seq::<Seq<char>>::empty());
    while !done
        invariant
            st <= v.len(),
            whole == cutover_list(v@),
            !done ==> cutover_fold(strings_view(out@), split_pieces(v@.skip(st as int), '\n'))
                == whole,
            done ==> strings_view(out@) == whole,
        decreases v.len() - st + (if done {
            0int
        } else {
            1int
        }),
    {
        let i = find_char(&v, st, v.len(), '\n');
        proof {
            assert(v@.subrange(st as int, v@.len() as int) =~= v@.skip(st as int));
            lemma_split_step(v@, '\n', st as int, i as int);
        }
        let (a, b) = trim_bounds(&v, st, i);
        let ghost piece = v@.subrange(st as int, i as int);
        let ghost before = strings_view(out@);
        let ghost rest = if i < v.len() {
            split_pieces(v@.skip(i + 1), '\n')
        } else {
            Seq::<Seq<char>>::empty()
        };
        let ghost pieces = split_pieces(v@.skip(st as int), '\n');
        assert(pieces == seq![piece] + rest);
        assert(pieces[0] == piece);
        assert(pieces.drop_first() =~= rest);
        if b > a && v[a] != '#' {
            let id = string_from_range(&v, a, b);
            let mut seen = false;
            let mut k: usize = 0;
            while k < out.len()
                invariant
                    k <= out@.len(),
                    seen <==> exists|j: int| 0 <= j < k && (#[trigger] out@[j])@ == id@,
                decreases out.len() - k,
            {
                if str_eq(out[k].as_str(), id.as_str()) {
                    seen = true;
                }
                k = k + 1;
            }
            proof {
                if seen {
                    let j = choose|j: int| 0 <= j < k && (#[trigger] out@[j])@ == id@;
                    assert(before[j] == id@);
                } else {
                    assert forall|j: int| 0 <= j < before.len() implies before[j] != id@ by {
                        assert(before[j] == out@[j]@);
                    }
                }
            }
            if !seen {
                out.push(id);
                assert(strings_view(out@) =~= before.push(trim(piece)));
            }
        }
        if i == v.len() {
            proof {
                assert(cutover_fold(strings_view(out@), rest) == strings_view(out@));
            }
            done = true;
        } else {
            st = i + 1;
        }
    }
    out
}

fn kind_rank(t: EntityType) -> (k: usize)
    ensures
        k < 7,
        kinds_in_name_order()[k as int] == t,
{
    match t {
        EntityType::Channel => 0,
        EntityType::Device => 1,
        EntityType::Gb28181Platform => 2,
        EntityType::OnvifEndpoint => 3,
        EntityType::SecretReference => 4,
        EntityType::Tenant => 5,
        EntityType::Unknown => 6,
    }
}

fn kind_at(k: usize) -> (t: EntityType)
    requires
        k < 7,
    ensures
        t == kinds_in_name_order()[k as int],
{
    if k == 0 {
        EntityType::Channel
    } else if k == 1 {
        EntityType::Device
    } else if k == 2 {
        EntityType::Gb28181Platform
    } else if k == 3 {
        EntityType::OnvifEndpoint
    } else if k == 4 {
        EntityType::SecretReference
    } else if k == 5 {
        EntityType::Tenant
    } else {
        EntityType::Unknown
    }
}

/// Counts of `(type, count)` pairs viewed with mathematical counts.
pub open spec fn table_view(v: Seq<(EntityType, usize)>) -> Seq<(EntityType, nat)> {
    v.map_values(|p: (EntityType, usize)| (p.0, p.1 as nat))
}

/// Tenant and external identifier of each stored device.
pub open spec fn stored_keys(stored: Seq<(String, String)>) -> Set<(Seq<char>, Seq<char>)> {
    stored.map_values(|e: (String, String)| (e.0@, e.1@)).to_set()
}

/// What a run takes: the records that its cutover list names, with, as
/// known parents, the device-like records of the batch and the devices
/// already stored.
pub open spec fn run_scope(rs: Seq<OldRecord>, o: ImportOptions, stored: Seq<(String, String)>) -> ImportScope {
    ImportScope {
        cutover: strings_view(o.cutover_ids@),
        known_parents: parents_of(rs).dom() + stored_keys(stored),
    }
}

/// The plan is what [`plan_import`] computes for the records, options and
/// stored devices.
pub open spec fn plan_of(p: ImportPlan, rs: Seq<OldRecord>, o: ImportOptions, stored: Seq<(String, String)>) -> bool {
    let cut = run_scope(rs, o, stored);
    let parents = parents_of(rs);
    let devs = taken_devices(rs, cut);
    let chans = taken_channels(rs, cut);
    &&& p.result.records_read == rs.len()
    &&& p.result.records_skipped == skipped_count(rs, cut)
    &&& p.result.records_invalid == invalid_count(rs, cut)
    &&& p.result.records_with_secrets == secret_count(rs, cut)
    &&& p.result.records_conflicting == 0
    &&& p.result.records_skipped_existing == 0
    &&& p.result.records_imported == (if o.dry_run {
        taken_count(rs, cut)
    } else {
        0
    })
    &&& strings_view(p.result.action_items@) == all_actions(rs, cut)
    &&& table_view(p.result.counts_by_kind@) == kind_table(rs, cut)
    &&& p.devices@.len() == devs.len()
    &&& forall|j: int| 0 <= j < devs.len() ==> device_plan_of(#[trigger] p.devices@[j], devs[j])
    &&& p.channels@.len() == chans.len()
    &&& forall|j: int|
        0 <= j < chans.len() ==> channel_plan_of(#[trigger] p.channels@[j], chans[j], parents)
    &&& p.device_events@.len() == devs.len()
    &&& forall|j: int|
        0 <= j < devs.len() ==> is_device_event(#[trigger] p.device_events@[j], p.devices@[j])
    &&& p.channel_events@.len() == chans.len()
    &&& forall|j: int|
        0 <= j < chans.len() ==> is_channel_event(#[trigger] p.channel_events@[j], p.channels@[j])
}

proof fn lemma_plan_step(rs: Seq<OldRecord>, cut: ImportScope, i: int)
    requires
        0 <= i < rs.len(),
    ensures
        ({
            let pre = rs.take(i);
            let cur = rs.take(i + 1);
            let r = rs[i];
            &&& skipped_count(cur, cut) == skipped_count(pre, cut) + (if !cutover_admits(cut, r) {
                1int
            } else {
                0int
            })
            &&& invalid_count(cur, cut) == invalid_count(pre, cut) + (if cutover_admits(cut, r)
                && !maps_cleanly(cut, r) {
                1int
            } else {
                0int
            })
            &&& secret_count(cur, cut) == secret_count(pre, cut) + (if taken(cut, r)
                && secret_names(r.secret_fields@).len() > 0 {
                1int
            } else {
                0int
            })
            &&& taken_count(cur, cut) == taken_count(pre, cut) + (if taken(cut, r) {
                1int
            } else {
                0int
            })
            &&& forall|t: EntityType|
                #[trigger] kind_count(cur, cut, t) == kind_count(pre, cut, t) + (if taken(cut, r)
                    && r.entity_type == t {
                    1int
                } else {
                    0int
                })
            &&& taken_devices(cur, cut) == (if taken(cut, r) && is_device_like(r.entity_type) {
                taken_devices(pre, cut).push(r)
            } else {
                taken_devices(pre, cut)
            })
            &&& taken_channels(cur, cut) == (if taken(cut, r) && r.entity_type
                == EntityType::Channel {
                taken_channels(pre, cut).push(r)
            } else {
                taken_channels(pre, cut)
            })
            &&& all_actions(cur, cut) == (if taken(cut, r) {
                all_actions(pre, cut) + record_actions(r)
            } else {
                all_actions(pre, cut)
            })
        }),
{
    reveal(Seq::filter);
    let pre = rs.take(i);
    let cur = rs.take(i + 1);
    let r = rs[i];
    assert(cur.drop_last() =~= pre);
    assert(cur.last() == r);
    assert(skipped_count(cur, cut) == skipped_count(pre, cut) + (if !cutover_admits(cut, r) {
        1int
    } else {
        0int
    }));
    assert(invalid_count(cur, cut) == invalid_count(pre, cut) + (if cutover_admits(cut, r)
        && !maps_cleanly(cut, r) {
        1int
    } else {
        0int
    }));
    assert(secret_count(cur, cut) == secret_count(pre, cut) + (if taken(cut, r) && secret_names(
        r.secret_fields@,
    ).len() > 0 {
        1int
    } else {
        0int
    }));
    assert(taken_count(cur, cut) == taken_count(pre, cut) + (if taken(cut, r) {
        1int
    } else {
        0int
    }));
    assert forall|t: EntityType|
        #[trigger] kind_count(cur, cut, t) == kind_count(pre, cut, t) + (if taken(cut, r)
            && r.entity_type == t {
            1int
        } else {
            0int
        }) by {
        assert(cur.drop_last() == pre);
    }
    assert(taken_devices(cur, cut) == (if taken(cut, r) && is_device_like(r.entity_type) {
        taken_devices(pre, cut).push(r)
    } else {
        taken_devices(pre, cut)
    }));
    assert(taken_channels(cur, cut) == (if taken(cut, r) && r.entity_type == EntityType::Channel {
        taken_channels(pre, cut).push(r)
    } else {
        taken_channels(pre, cut)
    }));
    assert(all_actions(cur, cut) == (if taken(cut, r) {
        all_actions(pre, cut) + record_actions(r)
    } else {
        all_actions(pre, cut)
    }));
}

/// Whether a device with the tenant and external identifier is stored.
fn stored_contains(stored: &Vec<(String, String)>, tenant: &String, external_id: &String) -> (b: bool)
    ensures
        b == stored_keys(stored@).contains((tenant@, external_id@)),
{
    let ghost keys = stored@.map_values(|e: (String, String)| (e.0@, e.1@));
    let mut i: usize = 0;
    while i < stored.len()
        invariant
            i <= stored@.len(),
            keys == stored@.map_values(|e: (String, String)| (e.0@, e.1@)),
            forall|j: int| 0 <= j < i ==> keys[j] != (tenant@, external_id@),
        decreases stored.len() - i,
    {
        if str_eq(stored[i].0.as_str(), tenant.as_str()) && str_eq(stored[i].1.as_str(), external_id.as_str()) {
            assert(keys[i as int] == (tenant@, external_id@));
            assert(keys.to_set().contains(keys[i as int]));
            return true;
        }
        i = i + 1;
    }
    proof {
        if keys.to_set().contains((tenant@, external_id@)) {
            let j = choose|j: int| 0 <= j < keys.len() && keys[j] == (tenant@, external_id@);
            assert(keys[j] != (tenant@, external_id@));
        }
    }
    false
}

/// Maps the records of a run and gathers what the run reports and writes.
/// `stored` lists the devices already in the target database, by tenant and
/// external identifier, that channels of the batch name as parent; a
/// channel whose parent is neither there nor a device-like record of the
/// batch is invalid.
///
/// A zero `checkpoint_every` is refused.
pub fn plan_import(records: &Vec<OldRecord>, options: &ImportOptions, stored: &Vec<(String, String)>) -> (r: Result<
    ImportPlan,
    MigrationError,
>)
    ensures
        r is Err <==> options.checkpoint_every == 0,
        r matches Err(e) ==> e matches MigrationError::Other(m) && m@
            == "checkpoint_every must be greater than zero"@,
        r matches Ok(p) ==> plan_of(p, records@, *options, stored@),
{
    if options.checkpoint_every == 0 {
        return Err(MigrationError::other("checkpoint_every must be greater than zero"));
    }
    let parents = build_parent_protocols(records);
    let ghost rs = records@;
    let ghost cut = run_scope(rs, *options, stored@);
    let mut skipped: usize = 0;
    let mut invalid: usize = 0;
    let mut with_secrets: usize = 0;
    let mut mapped: usize = 0;
    let mut actions: Vec<String> = Vec::new();
    let mut counts: Vec<usize> = vec![0, 0, 0, 0, 0, 0, 0];
    let mut devices: Vec<DevicePlan> = Vec::new();
    let mut channels: Vec<ChannelPlan> = Vec::new();
    let mut device_events: Vec<OutboxEvent> = Vec::new();
    let mut channel_events: Vec<OutboxEvent> = Vec::new();
    let mut i: usize = 0;
    assert(rs.take(0) =~= Seq::<OldRecord>::empty());
    while i < records.len()
        invariant
            i <= rs.len(),
            rs == records@,
            cut == run_scope(rs, *options, stored@),
            parents@ == parents_of(rs),
            skipped == skipped_count(rs.take(i as int), cut),
            invalid == invalid_count(rs.take(i as int), cut),
            with_secrets == secret_count(rs.take(i as int), cut),
            mapped == taken_count(rs.take(i as int), cut),
            mapped <= i,
            skipped <= i,
            invalid <= i,
            with_secrets <= i,
            strings_view(actions@) == all_actions(rs.take(i as int), cut),
            counts@.len() == 7,
            forall|k: int|
                0 <= k < 7 ==> counts@[k] == kind_count(
                    rs.take(i as int),
                    cut,
                    #[trigger] kinds_in_name_order()[k],
                ),
            forall|k: int| 0 <= k < 7 ==> #[trigger] counts@[k] <= i,
            devices@.len() + channels@.len() <= i,
            devices@.len() == taken_devices(rs.take(i as int), cut).len(),
            forall|j: int|
                0 <= j < devices@.len() ==> device_plan_of(
                    #[trigger] devices@[j],
                    taken_devices(rs.take(i as int), cut)[j],
                ),
            channels@.len() == taken_channels(rs.take(i as int), cut).len(),
            device_events@.len() == devices@.len(),
            forall|j: int|
                0 <= j < devices@.len() ==> is_device_event(
                    #[trigger] device_events@[j],
                    devices@[j],
                ),
            channel_events@.len() == channels@.len(),
            forall|j: int|
                0 <= j < channels@.len() ==> is_channel_event(
                    #[trigger] channel_events@[j],
                    channels@[j],
                ),
            forall|j: int|
                0 <= j < channels@.len() ==> channel_plan_of(
                    #[trigger] channels@[j],
                    taken_channels(rs.take(i as int), cut)[j],
                    parents_of(rs),
                ),
        decreases records.len() - i,
    {
        let record = &records[i];
        let ghost pre = rs.take(i as int);
        let ghost cur = rs.take(i + 1);
        proof {
            lemma_plan_step(rs, cut, i as int);
        }
        let ghost devs0 = devices@;
        let ghost chans0 = channels@;
        if !cutover_contains(&options.cutover_ids, &record.external_id) {
            skipped = skipped + 1;
        } else if record.validate().is_err() {
            invalid = invalid + 1;
        } else {
            let parent_known = match record.entity_type {
                EntityType::Channel => parents.get(record.tenant_id.as_str(), record.parent_device_id.as_str()).is_some()
                    || stored_contains(stored, &record.tenant_id, &record.parent_device_id),
                _ => true,
            };
            match map_record(record, &parents) {
                Err(_) => {
                    invalid = invalid + 1;
                },
                Ok(_) if !parent_known => {
                    invalid = invalid + 1;
                },
                Ok(m) => {
                    mapped = mapped + 1;
                    if record.has_secret() {
                        with_secrets = with_secrets + 1;
                        let mut a: usize = 0;
                        let ghost acts0 = actions@;
                        while a < m.actions.len()
                            invariant
                                a <= m.actions@.len(),
                                strings_view(actions@) == strings_view(acts0) + strings_view(
                                    m.actions@,
                                ).take(a as int),
                            decreases m.actions.len() - a,
                        {
                            let ghost acts1 = actions@;
                            actions.push(copy_str(m.actions[a].as_str()));
                            assert(strings_view(actions@) =~= strings_view(acts1).push(
                                m.actions@[a as int]@,
                            ));
                            assert(strings_view(m.actions@).take(a + 1) =~= strings_view(
                                m.actions@,
                            ).take(a as int).push(m.actions@[a as int]@));
                            assert(strings_view(actions@) =~= strings_view(acts0) + strings_view(
                                m.actions@,
                            ).take(a + 1));
                            a = a + 1;
                        }
                        assert(strings_view(m.actions@).take(a as int) =~= strings_view(m.actions@));
                    }
                    let k = kind_rank(record.entity_type);
                    let c = counts[k];
                    counts.set(k, c + 1);
                    let ghost evs0 = device_events@;
                    let ghost cevs0 = channel_events@;
                    if m.events.len() > 0 {
                        let ev = m.events[0];
                        match m.entity {
                            MappedAggregate::Device(d) => {
                                devices.push(d);
                                device_events.push(ev);
                            },
                            MappedAggregate::Gb28181Platform(d) => {
                                devices.push(d);
                                device_events.push(ev);
                            },
                            MappedAggregate::OnvifEndpoint(d) => {
                                devices.push(d);
                                device_events.push(ev);
                            },
                            MappedAggregate::Channel(c) => {
                                channels.push(c);
                                channel_events.push(ev);
                            },
                            _ => {},
                        }
                    }
                    proof {
                        assert forall|j: int| 0 <= j < devices@.len() implies is_device_event(
                            #[trigger] device_events@[j],
                            devices@[j],
                        ) by {
                            if j < devs0.len() {
                                assert(device_events@[j] == evs0[j]);
                                assert(devices@[j] == devs0[j]);
                            }
                        }
                        assert forall|j: int| 0 <= j < channels@.len() implies is_channel_event(
                            #[trigger] channel_events@[j],
                            channels@[j],
                        ) by {
                            if j < chans0.len() {
                                assert(channel_events@[j] == cevs0[j]);
                                assert(channels@[j] == chans0[j]);
                            }
                        }
                    }
                },
            }
        }
        proof {
            assert forall|k: int| 0 <= k < 7 implies counts@[k] == kind_count(
                cur,
                cut,
                #[trigger] kinds_in_name_order()[k],
            ) by {
                let t = kinds_in_name_order()[k];
                assert(kind_count(cur, cut, t) == kind_count(pre, cut, t) + (if taken(cut, rs[i as int])
                    && rs[i as int].entity_type == t {
                    1int
                } else {
                    0int
                }));
            }
            assert forall|j: int| 0 <= j < devices@.len() implies device_plan_of(
                #[trigger] devices@[j],
                taken_devices(cur, cut)[j],
            ) by {
                if j < devs0.len() {
                    assert(devices@[j] == devs0[j]);
                }
            }
            assert forall|j: int| 0 <= j < channels@.len() implies channel_plan_of(
                #[trigger] channels@[j],
                taken_channels(cur, cut)[j],
                parents_of(rs),
            ) by {
                if j < chans0.len() {
                    assert(channels@[j] == chans0[j]);
                }
            }
        }
        i = i + 1;
    }
    assert(rs.take(i as int) =~= rs);
    let mut table: Vec<(EntityType, usize)> = Vec::new();
    let mut k: usize = 0;
    while k < 7
        invariant
            k <= 7,
            counts@.len() == 7,
            forall|q: int|
                0 <= q < 7 ==> counts@[q] == kind_count(rs, cut, #[trigger] kinds_in_name_order()[q]),
            table_view(table@) == kind_table_upto(rs, cut, k as nat),
        decreases 7 - k,
    {
        let c = counts[k];
        let t = kind_at(k);
        assert(c == kind_count(rs, cut, kinds_in_name_order()[k as int]));
        if c > 0 {
            table.push((t, c));
            assert(table_view(table@) =~= kind_table_upto(rs, cut, k as nat).push((t, c as nat)));
        }
        k = k + 1;
    }
    let imported: usize = if options.dry_run {
        mapped
    } else {
        0
    };
    let result = ImportResult {
        records_read: records.len(),
        records_imported: imported,
        records_skipped: skipped,
        records_invalid: invalid,
        records_conflicting: 0,
        records_skipped_existing: 0,
        records_with_secrets: with_secrets,
        action_items: actions,
        counts_by_kind: table,
    };
    Ok(ImportPlan { result, devices, channels, device_events, channel_events })
}

/// Number of aggregates written by a flush: all of them, or, when existing
/// ones are skipped, those that do not exist yet.
pub open spec fn written_count(existing: Seq<bool>, skip_existing: bool) -> nat {
    existing.filter(|e: bool| !skip_existing || !e).len()
}

/// Whether an aggregate is written by a flush: always when existing ones
/// are overwritten, else only when it is not stored yet.
pub fn should_write(exists: bool, skip_existing: bool) -> (b: bool)
    ensures
        b == (!skip_existing || !exists),
{
    !skip_existing || !exists
}

/// The events appended by a flush: that of each aggregate written, in
/// order; `existing[i]` tells whether the `i`-th aggregate was stored.
pub open spec fn events_written(evs: Seq<OutboxEvent>, existing: Seq<bool>, skip_existing: bool) -> Seq<
    OutboxEvent,
>
    decreases evs.len(),
{
    if evs.len() == 0 || existing.len() == 0 {
        Seq::empty()
    } else {
        let prev = events_written(evs.drop_last(), existing.drop_last(), skip_existing);
        if !skip_existing || !existing.last() {
            prev.push(evs.last())
        } else {
            prev
        }
    }
}

/// Picks the outbox events that a flush appends: the event of each
/// aggregate that is written, in order.
pub fn flushed_events(events: &Vec<OutboxEvent>, existing: &Vec<bool>, skip_existing: bool) -> (r: Vec<
    OutboxEvent,
>)
    requires
        events@.len() == existing@.len(),
    ensures
        r@ == events_written(events@, existing@, skip_existing),
{
    let mut r: Vec<OutboxEvent> = Vec::new();
    let mut i: usize = 0;
    while i < events.len()
        invariant
            i <= events@.len(),
            events@.len() == existing@.len(),
            r@ == events_written(events@.take(i as int), existing@.take(i as int), skip_existing),
        decreases events.len() - i,
    {
        assert(events@.take(i + 1).drop_last() =~= events@.take(i as int));
        assert(existing@.take(i + 1).drop_last() =~= existing@.take(i as int));
        if should_write(existing[i], skip_existing) {
            r.push(events[i]);
        }
        i = i + 1;
    }
    assert(events@.take(i as int) =~= events@);
    assert(existing@.take(i as int) =~= existing@);
    r
}

/// A flush appends one outbox event for each aggregate it counts as
/// imported.
pub proof fn law_one_event_per_written_aggregate(
    evs: Seq<OutboxEvent>,
    existing: Seq<bool>,
    skip_existing: bool,
)
    requires
        evs.len() == existing.len(),
    ensures
        events_written(evs, existing, skip_existing).len() == written_count(existing, skip_existing),
    decreases evs.len(),
{
    reveal(Seq::filter);
    if evs.len() > 0 {
        law_one_event_per_written_aggregate(evs.drop_last(), existing.drop_last(), skip_existing);
    }
}

impl ImportResult {
    /// Accounts for a flush of aggregates to storage: `existing[i]` tells
    /// whether the `i`-th aggregate was already stored. Aggregates that are
    /// written (all of them when existing ones are overwritten) count as
    /// imported; existing ones that are skipped count as skipped existing.
    pub fn record_flush(&mut self, existing: &Vec<bool>, skip_existing: bool)
        requires
            old(self).records_imported + existing@.len() <= usize::MAX,
            old(self).records_skipped_existing + existing@.len() <= usize::MAX,
        ensures
            final(self).records_imported == old(self).records_imported + written_count(
                existing@,
                skip_existing,
            ),
            final(self).records_skipped_existing == old(self).records_skipped_existing + (
            existing@.len() - written_count(existing@, skip_existing)),
            final(self).records_conflicting == old(self).records_conflicting,
            final(self).records_read == old(self).records_read,
            final(self).records_skipped == old(self).records_skipped,
            final(self).records_invalid == old(self).records_invalid,
            final(self).records_with_secrets == old(self).records_with_secrets,
            final(self).action_items == old(self).action_items,
            final(self).counts_by_kind == old(self).counts_by_kind,
    {
        let mut written: usize = 0;
        let mut skipped: usize = 0;
        let mut i: usize = 0;
        while i < existing.len()
            invariant
                i <= existing@.len(),
                written == written_count(existing@.take(i as int), skip_existing),
                written + skipped == i,
            decreases existing.len() - i,
        {
            proof {
                reveal(Seq::filter);
                assert(existing@.take(i + 1).drop_last() =~= existing@.take(i as int));
            }
            if should_write(existing[i], skip_existing) {
                written = written + 1;
            } else {
                skipped = skipped + 1;
            }
            i = i + 1;
        }
        assert(existing@.take(i as int) =~= existing@);
        self.records_imported = self.records_imported + written;
        self.records_skipped_existing = self.records_skipped_existing + skipped;
    }
}

/// Number of records that the import takes.
pub open spec fn taken_count(rs: Seq<OldRecord>, scope: ImportScope) -> nat {
    rs.filter(|r: OldRecord| taken(scope, r)).len()
}

/// Sum of the counts of a `counts_by_kind` table.
pub open spec fn table_total(t: Seq<(EntityType, nat)>) -> nat
    decreases t.len(),
{
    if t.len() == 0 {
        0
    } else {
        table_total(t.drop_last()) + t.last().1
    }
}

/// Sum of the counts of the first `k` entity types, in name order.
spec fn kinds_total(rs: Seq<OldRecord>, scope: ImportScope, k: nat) -> nat
    decreases k,
{
    if k == 0 {
        0
    } else {
        kinds_total(rs, scope, (k - 1) as nat) + kind_count(rs, scope, kinds_in_name_order()[k - 1])
    }
}

/// Position of an entity type in name order.
spec fn kind_index(t: EntityType) -> nat {
    match t {
        EntityType::Channel => 0,
        EntityType::Device => 1,
        EntityType::Gb28181Platform => 2,
        EntityType::OnvifEndpoint => 3,
        EntityType::SecretReference => 4,
        EntityType::Tenant => 5,
        EntityType::Unknown => 6,
    }
}

proof fn lemma_table_total(rs: Seq<OldRecord>, scope: ImportScope, k: nat)
    requires
        k <= 7,
    ensures
        table_total(kind_table_upto(rs, scope, k)) == kinds_total(rs, scope, k),
    decreases k,
{
    if k > 0 {
        lemma_table_total(rs, scope, (k - 1) as nat);
        let prev = kind_table_upto(rs, scope, (k - 1) as nat);
        let t = kinds_in_name_order()[k - 1];
        let c = kind_count(rs, scope, t);
        if c > 0 {
            assert(prev.push((t, c)).drop_last() =~= prev);
        }
    }
}

proof fn lemma_kinds_total_push(rs: Seq<OldRecord>, scope: ImportScope, r: OldRecord, k: nat)
    requires
        k <= 7,
    ensures
        kinds_total(rs.push(r), scope, k) == kinds_total(rs, scope, k) + (if taken(scope, r)
            && kind_index(r.entity_type) < k {
            1int
        } else {
            0int
        }),
    decreases k,
{
    reveal(Seq::filter);
    if k > 0 {
        lemma_kinds_total_push(rs, scope, r, (k - 1) as nat);
        let t = kinds_in_name_order()[k - 1];
        assert(rs.push(r).drop_last() =~= rs);
        assert(kind_count(rs.push(r), scope, t) == kind_count(rs, scope, t) + (if taken(scope, r)
            && r.entity_type == t {
            1int
        } else {
            0int
        }));
        assert(kind_index(r.entity_type) == k - 1 <==> r.entity_type == t);
    }
}

proof fn lemma_kinds_total_empty(rs: Seq<OldRecord>, scope: ImportScope, k: nat)
    requires
        rs.len() == 0,
    ensures
        kinds_total(rs, scope, k) == 0,
    decreases k,
{
    reveal(Seq::filter);
    if k > 0 {
        lemma_kinds_total_empty(rs, scope, (k - 1) as nat);
        assert(rs.filter(|r: OldRecord| taken(scope, r) && r.entity_type == kinds_in_name_order()[k - 1]).len() == 0);
    }
}

proof fn lemma_accounted(rs: Seq<OldRecord>, scope: ImportScope)
    ensures
        rs.len() == skipped_count(rs, scope) + invalid_count(rs, scope) + taken_count(rs, scope),
        kinds_total(rs, scope, 7) == taken_count(rs, scope),
    decreases rs.len(),
{
    reveal(Seq::filter);
    if rs.len() > 0 {
        let pre = rs.drop_last();
        let r = rs.last();
        lemma_accounted(pre, scope);
        lemma_kinds_total_push(pre, scope, r, 7);
        assert(pre.push(r) =~= rs);
    } else {
        lemma_kinds_total_empty(rs, scope, 7);
    }
}

/// Every record read is accounted for exactly once: skipped by the cutover
/// list, counted invalid, or counted under its entity type in
/// `counts_by_kind`; in a dry run, the records counted under their types are
/// those counted as imported.
pub proof fn law_every_record_accounted_for(p: ImportPlan, rs: Seq<OldRecord>, o: ImportOptions, stored: Seq<(String, String)>)
    requires
        plan_of(p, rs, o, stored),
    ensures
        p.result.records_read == p.result.records_skipped + p.result.records_invalid + table_total(
            table_view(p.result.counts_by_kind@),
        ),
        o.dry_run ==> p.result.records_read == p.result.records_skipped + p.result.records_invalid
            + p.result.records_imported,
{
    let scope = run_scope(rs, o, stored);
    lemma_accounted(rs, scope);
    lemma_table_total(rs, scope, 7);
}

} // verus!
