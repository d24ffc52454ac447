//! GB/T 28181 catalog items and the channel records built from them.
use crate::text::copy_str;
use vstd::prelude::*;

verus! {

/// One item of a GB/T 28181 catalog response.
#[derive(Clone, Debug, Default)]
pub struct CatalogItem {
    /// Channel (or sub-device) identifier.
    pub device_id: String,
    /// Display name.
    pub name: Option<String>,
    /// Manufacturer.
    pub manufacturer: Option<String>,
    /// Model.
    pub model: Option<String>,
    /// Owner.
    pub owner: Option<String>,
    /// Administrative region code.
    pub civil_code: Option<String>,
    /// Police block.
    pub block: Option<String>,
    /// Installation address.
    pub address: Option<String>,
    /// Identifier of the parent node.
    pub parent_id: Option<String>,
    /// IP address.
    pub ip_address: Option<String>,
    /// Port.
    pub port: Option<String>,
    /// Status (`ON` / `OFF`).
    pub status: Option<String>,
    /// Longitude.
    pub longitude: Option<String>,
    /// Latitude.
    pub latitude: Option<String>,
}

/// One optional metadata entry: `(key, value)` when the value is present.
pub open spec fn opt_entry(key: Seq<char>, v: Option<String>) -> Seq<(Seq<char>, Seq<char>)> {
    match v {
        Some(s) => seq![(key, s@)],
        None => Seq::empty(),
    }
}

/// Metadata of a channel built from a catalog item, in ascending key order:
/// the item's identifier under `external_id`, and every attribute present.
pub open spec fn channel_metadata(item: CatalogItem) -> Seq<(Seq<char>, Seq<char>)> {
    opt_entry("address"@, item.address) + opt_entry("block"@, item.block) + opt_entry(
        "civil_code"@,
        item.civil_code,
    ) + seq![("external_id"@, item.device_id@)] + opt_entry("ip_address"@, item.ip_address)
        + opt_entry("latitude"@, item.latitude) + opt_entry("longitude"@, item.longitude)
        + opt_entry("manufacturer"@, item.manufacturer) + opt_entry("model"@, item.model)
        + opt_entry("owner"@, item.owner) + opt_entry("parent_id"@, item.parent_id) + opt_entry(
        "port"@,
        item.port,
    ) + opt_entry("status"@, item.status)
}

/// Characters of each key and value.
pub open spec fn entries_view(v: Seq<(String, String)>) -> Seq<(Seq<char>, Seq<char>)> {
    v.map_values(|p: (String, String)| (p.0@, p.1@))
}

pub(crate) fn push_opt(out: &mut Vec<(String, String)>, key: &str, v: &Option<String>)
    ensures
        entries_view(final(out)@) == entries_view(old(out)@) + opt_entry(key@, *v),
{
    let ghost before = out@;
    match v {
        Some(s) => {
            out.push((copy_str(key), copy_str(s.as_str())));
            assert(entries_view(out@) =~= entries_view(before) + opt_entry(key@, *v));
        },
        None => {
            assert(entries_view(out@) =~= entries_view(before) + opt_entry(key@, *v));
        },
    }
}

/// Builds channel metadata from a GB28181 catalog item.
///
/// The channel's GB28181 external id (`item.device_id`) is stored under the
/// `external_id` key so that channel-scoped commands (PTZ, preset, etc.) can
/// recover the channel's protocol identifier.
pub fn build_channel_metadata(item: &CatalogItem) -> (m: Vec<(String, String)>)
    ensures
        entries_view(m@) == channel_metadata(*item),
{
    let mut m: Vec<(String, String)> = Vec::new();
    push_opt(&mut m, "address", &item.address);
    push_opt(&mut m, "block", &item.block);
    push_opt(&mut m, "civil_code", &item.civil_code);
    let ghost before = m@;
    m.push((copy_str("external_id"), copy_str(item.device_id.as_str())));
    assert(entries_view(m@) =~= entries_view(before) + seq![("external_id"@, item.device_id@)]);
    push_opt(&mut m, "ip_address", &item.ip_address);
    push_opt(&mut m, "latitude", &item.latitude);
    push_opt(&mut m, "longitude", &item.longitude);
    push_opt(&mut m, "manufacturer", &item.manufacturer);
    push_opt(&mut m, "model", &item.model);
    push_opt(&mut m, "owner", &item.owner);
    push_opt(&mut m, "parent_id", &item.parent_id);
    push_opt(&mut m, "port", &item.port);
    push_opt(&mut m, "status", &item.status);
    assert(entries_view(m@) =~= channel_metadata(*item));
    m
}

/// A channel to record when a device's catalog is replaced.
#[derive(Clone, Debug)]
pub struct ChannelDescriptor {
    /// GB28181 identifier of the channel.
    pub external_id: String,
    /// Display name.
    pub name: String,
    /// Channel kind.
    pub kind: String,
    /// Whether the channel is enabled.
    pub enabled: bool,
    /// Channel metadata.
    pub metadata: Vec<(String, String)>,
}

/// The descriptor of a catalog item: named after the item (or its
/// identifier when it has no name), a video channel, enabled.
pub open spec fn descriptor_of(d: ChannelDescriptor, item: CatalogItem) -> bool {
    &&& d.external_id@ == item.device_id@
    &&& d.name@ == (match item.name {
        Some(n) => n@,
        None => item.device_id@,
    })
    &&& d.kind@ == "video"@
    &&& d.enabled
    &&& entries_view(d.metadata@) == channel_metadata(item)
}

/// Channel descriptors for a replaced catalog, one per item, in order.
pub fn catalog_descriptors(items: &Vec<CatalogItem>) -> (out: Vec<ChannelDescriptor>)
    ensures
        out@.len() == items@.len(),
        forall|i: int| 0 <= i < items@.len() ==> descriptor_of(#[trigger] out@[i], items@[i]),
{
    let mut out: Vec<ChannelDescriptor> = Vec::new();
    let mut i: usize = 0;
    while i < items.len()
        invariant
            i <= items@.len(),
            out@.len() == i,
            forall|k: int| 0 <= k < i ==> descriptor_of(#[trigger] out@[k], items@[k]),
        decreases items.len() - i,
    {
        let item = &items[i];
        let name = match &item.name {
            Some(n) => copy_str(n.as_str()),
            None => copy_str(item.device_id.as_str()),
        };
        out.push(
            ChannelDescriptor {
                external_id: copy_str(item.device_id.as_str()),
                name,
                kind: copy_str("video"),
                enabled: true,
                metadata: build_channel_metadata(item),
            },
        );
        i = i + 1;
    }
    out
}

} // verus!
