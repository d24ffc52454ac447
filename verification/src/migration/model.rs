//! Source record model consumed by the migration tool.
use crate::migration::error::{is_invalid_record, MigrationError};
use crate::text::{
    byte_len, byte_len_exceeds, chars_of, find_char, lemma_split_step, split_pieces,
    string_from_range, strings_view, trim, trim_bounds,
};
use vstd::prelude::*;

verus! {

/// Maximum byte length of a source tenant or external identifier.
pub const MAX_MIGRATION_ID_BYTES: usize = 256;

/// Maximum byte length of a display name.
pub const MAX_MIGRATION_NAME_BYTES: usize = 1024;

/// Maximum byte length of an authority / endpoint address.
pub const MAX_MIGRATION_AUTHORITY_BYTES: usize = 256;

/// Maximum byte length of a protocol, device kind or channel kind value.
pub const MAX_MIGRATION_TAG_BYTES: usize = 64;

/// Maximum byte length of the `secret_fields` comma-separated list.
pub const MAX_MIGRATION_SECRET_FIELDS_BYTES: usize = 1024;

/// Maximum number of distinct secret field names.
pub const MAX_MIGRATION_SECRET_FIELDS_COUNT: usize = 64;

/// Maximum number of metadata entries.
pub const MAX_MIGRATION_METADATA_KEYS: usize = 64;

/// Maximum byte length of a metadata key.
pub const MAX_MIGRATION_METADATA_KEY_BYTES: usize = 128;

/// Maximum byte length of a metadata string value.
pub const MAX_MIGRATION_METADATA_VALUE_BYTES: usize = 4096;

/// Entity kind in the source system.
#[derive(Clone, Copy, Debug, Default, PartialEq, Eq, Structural)]
pub enum EntityType {
    /// Unknown or unsupported entity.
    #[default]
    Unknown,
    /// Tenant / organisation.
    Tenant,
    /// Device.
    Device,
    /// Channel belonging to a device.
    Channel,
    /// GB/T 28181 platform / cascaded upper platform.
    Gb28181Platform,
    /// ONVIF endpoint.
    OnvifEndpoint,
    /// Secret reference that cannot be migrated as plaintext.
    SecretReference,
}

/// A JSON value found under a free-form metadata key.
///
/// Scalars keep what the tool reads from them; arrays and objects keep their
/// compact JSON text.
#[derive(Clone, Debug)]
pub enum MetadataValue {
    /// JSON `null`.
    Null,
    /// JSON boolean.
    Bool(bool),
    /// JSON number, as its JSON text.
    Number(String),
    /// JSON string.
    Text(String),
    /// JSON array, as its compact JSON text.
    Array(String),
    /// JSON object, as its compact JSON text.
    Object(String),
}

/// A single record exported from the old system.
///
/// Only the fields needed to build the target domain objects are named;
/// every other key of a JSON object is kept in `metadata`, in ascending key
/// order.
#[derive(Clone, Debug, Default)]
pub struct OldRecord {
    /// Entity kind.
    pub entity_type: EntityType,
    /// Tenant identifier in the old system.
    pub tenant_id: String,
    /// External/protocol identifier.
    pub external_id: String,
    /// Human-readable name.
    pub name: String,
    /// Protocol name, e.g. `gb28181` or `onvif`.
    pub protocol: String,
    /// Device kind, e.g. `camera` or `nvr`.
    pub kind: String,
    /// Authority / host / endpoint address.
    pub authority: String,
    /// For channels: external ID of the parent device.
    pub parent_device_id: String,
    /// For channels: channel kind, e.g. `video` or `ptz`.
    pub channel_kind: String,
    /// Whether the channel is enabled.
    pub enabled: bool,
    /// Free-form metadata and unknown JSON keys, in ascending key order.
    pub metadata: Vec<(String, MetadataValue)>,
    /// Comma-separated list of credential fields that should be re-entered
    /// rather than migrated as plaintext.
    pub secret_fields: String,
}

/// The trimmed pieces that are not empty, in order.
pub open spec fn nonempty_trimmed(p: Seq<Seq<char>>) -> Seq<Seq<char>>
    decreases p.len(),
{
    if p.len() == 0 {
        Seq::empty()
    } else {
        let t = trim(p[0]);
        let head = if t.len() > 0 {
            seq![t]
        } else {
            Seq::empty()
        };
        head + nonempty_trimmed(p.drop_first())
    }
}

/// The secret field names listed in a comma-separated `secret_fields` value.
pub open spec fn secret_names(s: Seq<char>) -> Seq<Seq<char>> {
    nonempty_trimmed(split_pieces(s, ','))
}

/// Why a metadata entry is refused, if it is.
pub open spec fn entry_error(key: Seq<char>, value: MetadataValue) -> Option<Seq<char>> {
    if byte_len(key) > MAX_MIGRATION_METADATA_KEY_BYTES {
        Some("metadata key exceeds maximum length"@)
    } else {
        match value {
            MetadataValue::Text(s) => if byte_len(s@) <= MAX_MIGRATION_METADATA_VALUE_BYTES {
                None
            } else {
                Some("metadata value exceeds maximum length or is not a scalar"@)
            },
            MetadataValue::Number(_) | MetadataValue::Bool(_) | MetadataValue::Null => None,
            _ => Some("metadata value exceeds maximum length or is not a scalar"@),
        }
    }
}

/// The refusal of the first refused metadata entry, if any.
pub open spec fn metadata_error(m: Seq<(String, MetadataValue)>) -> Option<Seq<char>>
    decreases m.len(),
{
    if m.len() == 0 {
        None
    } else {
        match entry_error(m[0].0@, m[0].1) {
            Some(e) => Some(e),
            None => metadata_error(m.drop_first()),
        }
    }
}

/// Why a record is refused by [`OldRecord::validate`], if it is: the first
/// failing check, in the order the checks are made.
pub open spec fn record_error(r: OldRecord) -> Option<Seq<char>> {
    if byte_len(r.tenant_id@) > MAX_MIGRATION_ID_BYTES {
        Some("tenant_id exceeds maximum length"@)
    } else if byte_len(r.external_id@) > MAX_MIGRATION_ID_BYTES {
        Some("external_id exceeds maximum length"@)
    } else if byte_len(r.parent_device_id@) > MAX_MIGRATION_ID_BYTES {
        Some("parent_device_id exceeds maximum length"@)
    } else if byte_len(r.name@) > MAX_MIGRATION_NAME_BYTES {
        Some("name exceeds maximum length"@)
    } else if byte_len(r.authority@) > MAX_MIGRATION_AUTHORITY_BYTES {
        Some("authority exceeds maximum length"@)
    } else if byte_len(r.protocol@) > MAX_MIGRATION_TAG_BYTES {
        Some("protocol exceeds maximum length"@)
    } else if byte_len(r.kind@) > MAX_MIGRATION_TAG_BYTES {
        Some("kind exceeds maximum length"@)
    } else if byte_len(r.channel_kind@) > MAX_MIGRATION_TAG_BYTES {
        Some("channel_kind exceeds maximum length"@)
    } else if byte_len(r.secret_fields@) > MAX_MIGRATION_SECRET_FIELDS_BYTES {
        Some("secret_fields exceeds maximum length"@)
    } else if secret_names(r.secret_fields@).len() > MAX_MIGRATION_SECRET_FIELDS_COUNT {
        Some("secret_fields contains too many entries"@)
    } else if r.metadata@.len() > MAX_MIGRATION_METADATA_KEYS {
        Some("metadata contains too many entries"@)
    } else {
        metadata_error(r.metadata@)
    }
}

proof fn lemma_metadata_error_at(m: Seq<(String, MetadataValue)>, i: int)
    requires
        0 <= i < m.len(),
        forall|k: int| 0 <= k < i ==> (#[trigger] entry_error(m[k].0@, m[k].1)) is None,
        entry_error(m[i].0@, m[i].1) is Some,
    ensures
        metadata_error(m) == entry_error(m[i].0@, m[i].1),
    decreases i,
{
    if i > 0 {
        let t = m.drop_first();
        assert(entry_error(m[0].0@, m[0].1) is None);
        assert forall|k: int| 0 <= k < i - 1 implies (#[trigger] entry_error(t[k].0@, t[k].1)) is None by {
            assert(t[k] == m[k + 1]);
        }
        assert(t[i - 1] == m[i]);
        lemma_metadata_error_at(t, i - 1);
    }
}

proof fn lemma_metadata_error_none(m: Seq<(String, MetadataValue)>)
    requires
        forall|k: int| 0 <= k < m.len() ==> (#[trigger] entry_error(m[k].0@, m[k].1)) is None,
    ensures
        metadata_error(m) is None,
    decreases m.len(),
{
    if m.len() > 0 {
        let t = m.drop_first();
        assert(entry_error(m[0].0@, m[0].1) is None);
        assert forall|k: int| 0 <= k < t.len() implies (#[trigger] entry_error(t[k].0@, t[k].1)) is None by {
            assert(t[k] == m[k + 1]);
        }
        lemma_metadata_error_none(t);
    }
}

/// Refusal for a check on one field, as an invalid-record error.
fn check_len(s: &String, max: usize, message: &str) -> (r: Result<(), MigrationError>)
    ensures
        r is Ok <==> byte_len(s@) <= max,
        r matches Err(e) ==> is_invalid_record(e, message@),
{
    if byte_len_exceeds(s.as_str(), max) {
        Err(MigrationError::invalid(message))
    } else {
        Ok(())
    }
}

/// Checks one metadata entry.
fn check_entry(key: &String, value: &MetadataValue) -> (r: Result<(), MigrationError>)
    ensures
        r is Ok <==> entry_error(key@, *value) is None,
        r matches Err(e) ==> entry_error(key@, *value) matches Some(m) && is_invalid_record(e, m),
{
    if byte_len_exceeds(key.as_str(), MAX_MIGRATION_METADATA_KEY_BYTES) {
        return Err(MigrationError::invalid("metadata key exceeds maximum length"));
    }
    let ok = match value {
        MetadataValue::Text(s) => !byte_len_exceeds(s.as_str(), MAX_MIGRATION_METADATA_VALUE_BYTES),
        MetadataValue::Number(_) | MetadataValue::Bool(_) | MetadataValue::Null => true,
        _ => false,
    };
    if ok {
        Ok(())
    } else {
        Err(MigrationError::invalid("metadata value exceeds maximum length or is not a scalar"))
    }
}

impl OldRecord {
    /// Returns the parsed secret field names: the comma-separated pieces of
    /// `secret_fields`, trimmed, without empty ones.
    pub fn secret_field_names(&self) -> (names: Vec<String>)
        ensures
            strings_view(names@) == secret_names(self.secret_fields@),
    {
        let v = chars_of(self.secret_fields.as_str());
        let ghost whole = secret_names(v@);
        let mut out: Vec<String> = Vec::new();
        let mut st: usize = 0;
        let mut done = false;
        assert(v@.skip(0) =~= v@);
        while !done
            invariant
                st <= v.len(),
                whole == secret_names(v@),
                !done ==> strings_view(out@) + nonempty_trimmed(split_pieces(v@.skip(st as int), ','))
                    == whole,
                done ==> strings_view(out@) == whole,
            decreases v.len() - st + (if done {
                0int
            } else {
                1int
            }),
        {
            let i = find_char(&v, st, v.len(), ',');
            proof {
                assert(v@.subrange(st as int, v@.len() as int) =~= v@.skip(st as int));
                lemma_split_step(v@, ',', st as int, i as int);
            }
            let (a, b) = trim_bounds(&v, st, i);
            let ghost piece = v@.subrange(st as int, i as int);
            let ghost before = strings_view(out@);
            let ghost rest = if i < v.len() {
                split_pieces(v@.skip(i + 1), ',')
            } else {
                Seq::<Seq<char>>::empty()
            };
            let ghost pieces = split_pieces(v@.skip(st as int), ',');
            assert(pieces == seq![piece] + rest);
            assert(pieces[0] == piece);
            assert(pieces.drop_first() =~= rest);
            if b > a {
                let name = string_from_range(&v, a, b);
                out.push(name);
                assert(strings_view(out@) =~= before + seq![trim(piece)]);
            } else {
                assert(strings_view(out@) =~= before);
            }
            proof {
                let head = if trim(piece).len() > 0 {
                    seq![trim(piece)]
                } else {
                    Seq::<Seq<char>>::empty()
                };
                assert(nonempty_trimmed(pieces) == head + nonempty_trimmed(rest));
                assert(strings_view(out@) =~= before + head);
                assert(before + (head + nonempty_trimmed(rest)) =~= (before + head)
                    + nonempty_trimmed(rest));
                if i == v.len() {
                    assert(nonempty_trimmed(rest) =~= Seq::<Seq<char>>::empty());
                    assert(strings_view(out@) + Seq::<Seq<char>>::empty() =~= strings_view(out@));
                }
            }
            if i == v.len() {
                done = true;
            } else {
                st = i + 1;
            }
        }
        out
    }

    /// Returns true if this record carries a credential that must not be
    /// written to the target database as plaintext.
    pub fn has_secret(&self) -> (b: bool)
        ensures
            b == (secret_names(self.secret_fields@).len() > 0),
    {
        let names = self.secret_field_names();
        assert(strings_view(names@).len() == names@.len());
        names.len() > 0
    }

    /// Validates field sizes and metadata shape before the record is used to
    /// build stable identifiers or domain aggregates.
    pub fn validate(&self) -> (r: Result<(), MigrationError>)
        ensures
            r is Ok <==> record_error(*self) is None,
            r matches Err(e) ==> record_error(*self) matches Some(m) && is_invalid_record(e, m),
    {
        check_len(&self.tenant_id, MAX_MIGRATION_ID_BYTES, "tenant_id exceeds maximum length")?;
        check_len(&self.external_id, MAX_MIGRATION_ID_BYTES, "external_id exceeds maximum length")?;
        check_len(
            &self.parent_device_id,
            MAX_MIGRATION_ID_BYTES,
            "parent_device_id exceeds maximum length",
        )?;
        check_len(&self.name, MAX_MIGRATION_NAME_BYTES, "name exceeds maximum length")?;
        check_len(&self.authority, MAX_MIGRATION_AUTHORITY_BYTES, "authority exceeds maximum length")?;
        check_len(&self.protocol, MAX_MIGRATION_TAG_BYTES, "protocol exceeds maximum length")?;
        check_len(&self.kind, MAX_MIGRATION_TAG_BYTES, "kind exceeds maximum length")?;
        check_len(&self.channel_kind, MAX_MIGRATION_TAG_BYTES, "channel_kind exceeds maximum length")?;
        check_len(
            &self.secret_fields,
            MAX_MIGRATION_SECRET_FIELDS_BYTES,
            "secret_fields exceeds maximum length",
        )?;
        let names = self.secret_field_names();
        assert(strings_view(names@).len() == names@.len());
        if names.len() > MAX_MIGRATION_SECRET_FIELDS_COUNT {
            return Err(MigrationError::invalid("secret_fields contains too many entries"));
        }
        if self.metadata.len() > MAX_MIGRATION_METADATA_KEYS {
            return Err(MigrationError::invalid("metadata contains too many entries"));
        }
        assert(record_error(*self) == metadata_error(self.metadata@));
        let mut i: usize = 0;
        while i < self.metadata.len()
            invariant
                i <= self.metadata@.len(),
                record_error(*self) == metadata_error(self.metadata@),
                forall|k: int|
                    0 <= k < i ==> (#[trigger] entry_error(
                        self.metadata@[k].0@,
                        self.metadata@[k].1,
                    )) is None,
            decreases self.metadata.len() - i,
        {
            let r = check_entry(&self.metadata[i].0, &self.metadata[i].1);
            if r.is_err() {
                proof {
                    lemma_metadata_error_at(self.metadata@, i as int);
                }
                return r;
            }
            i = i + 1;
        }
        proof {
            lemma_metadata_error_none(self.metadata@);
        }
        Ok(())
    }
}

} // verus!
