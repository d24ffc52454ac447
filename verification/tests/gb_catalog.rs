use cheetah_signaling::gb::catalog::{build_channel_metadata, catalog_descriptors, CatalogItem};
use cheetah_signaling::gb::catalog_buffer::{fragment_key, CatalogBuffer, CATALOG_FRAGMENT_TTL_MS};

fn item(id: &str) -> CatalogItem {
    CatalogItem { device_id: id.to_string(), ..Default::default() }
}

fn ids(items: &[CatalogItem]) -> Vec<&str> {
    items.iter().map(|i| i.device_id.as_str()).collect()
}

fn meta<'a>(m: &'a [(String, String)], key: &str) -> Option<&'a str> {
    m.iter().find(|(k, _)| k == key).map(|(_, v)| v.as_str())
}

#[test]
fn channel_metadata_records_external_id() {
    let item = CatalogItem {
        device_id: "34020000001320000001".to_string(),
        manufacturer: Some("Acme".to_string()),
        ..Default::default()
    };
    let metadata = build_channel_metadata(&item);
    assert_eq!(
        meta(&metadata, "external_id"),
        Some("34020000001320000001"),
        "channel external id must be persisted so channel-scoped commands resolve the right target"
    );
    assert_eq!(meta(&metadata, "manufacturer"), Some("Acme"));
}

#[test]
fn channel_metadata_is_in_key_order_and_skips_absent_fields() {
    let item = CatalogItem {
        device_id: "c1".to_string(),
        status: Some("ON".to_string()),
        address: Some("Main St".to_string()),
        name: Some("Front".to_string()),
        ..Default::default()
    };
    let keys: Vec<String> = build_channel_metadata(&item).into_iter().map(|(k, _)| k).collect();
    assert_eq!(keys, vec!["address", "external_id", "status"]);
}

#[test]
fn descriptors_default_their_name_to_the_channel_id() {
    let named = CatalogItem { device_id: "c1".to_string(), name: Some("Front".to_string()), ..Default::default() };
    let out = catalog_descriptors(&vec![named, item("c2")]);
    assert_eq!(out.len(), 2);
    assert_eq!(out[0].name, "Front");
    assert_eq!(out[1].name, "c2");
    assert_eq!(out[1].external_id, "c2");
    assert_eq!(out[1].kind, "video");
    assert!(out[1].enabled);
}

#[test]
fn fragment_key_ignores_item_order() {
    assert_eq!(fragment_key(&vec![item("b"), item("a")]), "a,b");
    assert_eq!(fragment_key(&vec![item("a"), item("b")]), "a,b");
    assert_eq!(fragment_key(&Vec::new()), "empty");
}

#[test]
fn catalog_completes_when_all_fragments_arrive() {
    let mut b = CatalogBuffer::new(8, 100);
    assert!(b.accumulate(1, "dev", "7", 3, 2, vec![item("a"), item("b")], 0).is_none());
    assert_eq!(b.len(), 1);
    let done = b.accumulate(1, "dev", "7", 3, 1, vec![item("c")], 10).unwrap();
    assert_eq!(ids(&done), vec!["a", "b", "c"]);
    assert_eq!(b.len(), 0);
}

#[test]
fn retransmitted_fragment_counts_once() {
    let mut b = CatalogBuffer::new(8, 100);
    assert!(b.accumulate(1, "dev", "7", 4, 2, vec![item("a"), item("b")], 0).is_none());
    assert!(b.accumulate(1, "dev", "7", 4, 2, vec![item("b"), item("a")], 5).is_none());
    assert_eq!(b.len(), 1);
    let done = b.accumulate(1, "dev", "7", 4, 2, vec![item("c"), item("d")], 6).unwrap();
    assert_eq!(done.len(), 4);
}

#[test]
fn empty_catalog_completes_at_once() {
    let mut b = CatalogBuffer::new(8, 100);
    let done = b.accumulate(1, "dev", "7", 0, 0, Vec::new(), 0).unwrap();
    assert!(done.is_empty());
    assert_eq!(b.len(), 0);
}

#[test]
fn single_fragment_catalog_is_returned_without_buffering() {
    let mut b = CatalogBuffer::new(8, 100);
    let done = b.accumulate(1, "dev", "7", 2, 2, vec![item("a"), item("b")], 0).unwrap();
    assert_eq!(ids(&done), vec!["a", "b"]);
    assert_eq!(b.len(), 0);
}

#[test]
fn transfers_are_kept_apart_by_tenant_device_and_sn() {
    let mut b = CatalogBuffer::new(8, 100);
    assert!(b.accumulate(1, "dev", "7", 2, 1, vec![item("a")], 0).is_none());
    assert!(b.accumulate(2, "dev", "7", 2, 1, vec![item("a")], 0).is_none());
    assert!(b.accumulate(1, "dev2", "7", 2, 1, vec![item("a")], 0).is_none());
    assert!(b.accumulate(1, "dev", "8", 2, 1, vec![item("a")], 0).is_none());
    assert_eq!(b.len(), 4);
}

#[test]
fn new_transfer_is_refused_when_the_buffer_is_full() {
    let mut b = CatalogBuffer::new(1, 100);
    assert!(b.accumulate(1, "dev", "1", 2, 1, vec![item("a")], 0).is_none());
    assert!(b.accumulate(1, "dev", "2", 2, 1, vec![item("a")], 0).is_none());
    assert_eq!(b.len(), 1);
}

#[test]
fn oversized_declared_total_is_dropped() {
    let mut b = CatalogBuffer::new(8, 2);
    assert!(b.accumulate(1, "dev", "1", 3, 1, vec![item("a")], 0).is_none());
    assert_eq!(b.len(), 0);
}

#[test]
fn stale_transfers_are_evicted() {
    let mut b = CatalogBuffer::new(8, 100);
    assert!(b.accumulate(1, "dev", "1", 2, 1, vec![item("a")], 0).is_none());
    assert!(b.accumulate(1, "dev", "2", 2, 1, vec![item("a")], 50_000).is_none());
    assert_eq!(b.evict(CATALOG_FRAGMENT_TTL_MS), 0);
    assert_eq!(b.evict(CATALOG_FRAGMENT_TTL_MS + 1), 1);
    assert_eq!(b.len(), 1);
}

#[test]
fn later_item_with_same_id_replaces_earlier_one() {
    let mut b = CatalogBuffer::new(8, 100);
    let first = CatalogItem { device_id: "a".to_string(), name: Some("old".to_string()), ..Default::default() };
    let second = CatalogItem { device_id: "a".to_string(), name: Some("new".to_string()), ..Default::default() };
    assert!(b.accumulate(1, "dev", "1", 2, 1, vec![first], 0).is_none());
    let done = b.accumulate(1, "dev", "1", 2, 1, vec![second, item("b")], 1).unwrap();
    assert_eq!(ids(&done), vec!["a", "b"]);
    assert_eq!(done[0].name.as_deref(), Some("new"));
}
