//! In-memory accumulator for paginated GB28181 catalog fragments.
//!
//! Devices may split a catalog response across several SIP MESSAGE bodies.
//! Fragments are keyed by (tenant, device, sequence number) and merged into a
//! single catalog once `SumNum` distinct channel ids have been seen. Items are
//! de-duplicated by their channel `device_id`.
//!
//! To avoid stalling when a camera drops malformed items, completion also
//! falls back to the sum of declared `Num` values over each *unique* fragment
//! content (retransmissions count once). Partial transfers expire after
//! [`CATALOG_FRAGMENT_TTL_MS`] and are evicted by the cleanup tick.
use crate::gb::catalog::CatalogItem;
use crate::gb::lex::{lemma_sorted_of, sort_distinct, sorted_of};
use crate::text::{copy_str, join, join_strings, str_eq, strings_view};
use vstd::prelude::*;

verus! {

/// Time after which a partial catalog transfer is dropped, in milliseconds.
pub const CATALOG_FRAGMENT_TTL_MS: u64 = 60_000;

/// Interval of the cleanup tick that evicts stale transfers, in milliseconds.
pub const CATALOG_CLEANUP_INTERVAL_MS: u64 = 30_000;

/// Channel ids of a sequence of items.
pub open spec fn item_ids(items: Seq<CatalogItem>) -> Seq<Seq<char>> {
    items.map_values(|it: CatalogItem| it.device_id@)
}

/// No two items share a channel id.
pub open spec fn ids_distinct(items: Seq<CatalogItem>) -> bool {
    forall|i: int, j: int|
        0 <= i < j < items.len() ==> (#[trigger] items[i]).device_id@ != (#[trigger] items[j]).device_id@
}

/// Some item has the channel id.
pub open spec fn has_id(items: Seq<CatalogItem>, id: Seq<char>) -> bool {
    exists|k: int| 0 <= k < items.len() && (#[trigger] items[k]).device_id@ == id
}

/// Position of the item with the channel id.
pub open spec fn id_pos(items: Seq<CatalogItem>, id: Seq<char>) -> int {
    choose|k: int| 0 <= k < items.len() && (#[trigger] items[k]).device_id@ == id
}

/// `items` with `it` in place of the item with the same channel id, or with
/// `it` added at the end (a map insertion keyed by channel id).
pub open spec fn upsert(items: Seq<CatalogItem>, it: CatalogItem) -> Seq<CatalogItem> {
    if has_id(items, it.device_id@) {
        items.update(id_pos(items, it.device_id@), it)
    } else {
        items.push(it)
    }
}

/// `acc` with the items of `batch` inserted one after the other.
pub open spec fn merge_items(acc: Seq<CatalogItem>, batch: Seq<CatalogItem>) -> Seq<CatalogItem>
    decreases batch.len(),
{
    if batch.len() == 0 {
        acc
    } else {
        merge_items(upsert(acc, batch[0]), batch.drop_first())
    }
}

/// The key of a fragment: its sorted channel ids joined by `,`, or `empty`.
///
/// Retransmissions of the same fragment share the key, whatever the order
/// of their items.
pub open spec fn fragment_key_of(batch: Seq<CatalogItem>) -> Seq<char> {
    if batch.len() == 0 {
        "empty"@
    } else {
        join(sorted_of(item_ids(batch).to_set()), ","@)
    }
}

/// No two fragments share a key.
pub open spec fn frag_keys_distinct(frags: Seq<(Seq<char>, u32)>) -> bool {
    forall|i: int, j: int| 0 <= i < j < frags.len() ==> (#[trigger] frags[i]).0 != (#[trigger] frags[j]).0
}

/// Some fragment has the key.
pub open spec fn has_frag(frags: Seq<(Seq<char>, u32)>, key: Seq<char>) -> bool {
    exists|k: int| 0 <= k < frags.len() && (#[trigger] frags[k]).0 == key
}

/// Position of the fragment with the key.
pub open spec fn frag_pos(frags: Seq<(Seq<char>, u32)>, key: Seq<char>) -> int {
    choose|k: int| 0 <= k < frags.len() && (#[trigger] frags[k]).0 == key
}

/// Records a fragment's declared `Num`, keeping the largest value seen for
/// a key.
pub open spec fn record_fragment(frags: Seq<(Seq<char>, u32)>, key: Seq<char>, num: u32) -> Seq<
    (Seq<char>, u32),
> {
    if has_frag(frags, key) {
        let k = frag_pos(frags, key);
        frags.update(k, (key, if num > frags[k].1 {
            num
        } else {
            frags[k].1
        }))
    } else {
        frags.push((key, num))
    }
}

/// Sum of the declared `Num` values.
pub open spec fn num_sum(frags: Seq<(Seq<char>, u32)>) -> nat
    decreases frags.len(),
{
    if frags.len() == 0 {
        0
    } else {
        num_sum(frags.drop_last()) + frags.last().1 as nat
    }
}

/// Sum of the declared `Num` values of the unique fragments, saturating.
pub open spec fn received(frags: Seq<(Seq<char>, u32)>) -> nat {
    if num_sum(frags) > u32::MAX {
        u32::MAX as nat
    } else {
        num_sum(frags)
    }
}

/// A partial catalog as the contracts see it.
pub struct PartialView {
    /// Items accumulated so far, one per channel id.
    pub items: Seq<CatalogItem>,
    /// Declared total (`SumNum`).
    pub expected: u32,
    /// Declared `Num` per unique fragment key.
    pub fragments: Seq<(Seq<char>, u32)>,
    /// When a fragment was last merged, in milliseconds.
    pub last_seen: u64,
}

/// The transfer is complete: as many distinct channels as declared, or
/// the unique fragments declare exactly `SumNum` items.
pub open spec fn complete(p: PartialView) -> bool {
    p.items.len() >= p.expected || received(p.fragments) == p.expected
}

/// Key of a transfer: tenant, device and sequence number.
pub type KeyView = (u128, Seq<char>, Seq<char>);

/// Key of a transfer: tenant, device and sequence number.
#[derive(Clone, Debug)]
pub struct CatalogKey {
    /// Tenant identifier.
    pub tenant_id: u128,
    /// GB28181 identifier of the device.
    pub device_id: String,
    /// Sequence number of the query.
    pub sn: String,
}

impl CatalogKey {
    /// The key as the contracts see it.
    pub open spec fn kview(&self) -> KeyView {
        (self.tenant_id, self.device_id@, self.sn@)
    }
}

/// Partial catalog of one transfer.
#[derive(Debug)]
pub struct PartialCatalog {
    items: Vec<CatalogItem>,
    expected: u32,
    fragments: Vec<(String, u32)>,
    last_seen_ms: u64,
}

/// Fragments as the contracts see them.
pub open spec fn frags_view(f: Seq<(String, u32)>) -> Seq<(Seq<char>, u32)> {
    f.map_values(|e: (String, u32)| (e.0@, e.1))
}

impl PartialCatalog {
    /// The partial catalog as the contracts see it.
    pub closed spec fn pview(&self) -> PartialView {
        PartialView {
            items: self.items@,
            expected: self.expected,
            fragments: frags_view(self.fragments@),
            last_seen: self.last_seen_ms,
        }
    }

    /// Well-formed: one item per channel id, one value per fragment key.
    pub closed spec fn pwf(&self) -> bool {
        ids_distinct(self.items@) && frag_keys_distinct(frags_view(self.fragments@))
    }
}

/// Inserts `it` keyed by its channel id.
fn upsert_item(acc: &mut Vec<CatalogItem>, it: CatalogItem)
    requires
        ids_distinct(old(acc)@),
    ensures
        final(acc)@ == upsert(old(acc)@, it),
        ids_distinct(final(acc)@),
{
    let mut k: usize = 0;
    while k < acc.len() && !str_eq(acc[k].device_id.as_str(), it.device_id.as_str())
        invariant
            k <= acc@.len(),
            forall|j: int| 0 <= j < k ==> (#[trigger] acc@[j]).device_id@ != it.device_id@,
        decreases acc.len() - k,
    {
        k = k + 1;
    }
    if k < acc.len() {
        proof {
            assert(has_id(acc@, it.device_id@));
            let c = id_pos(acc@, it.device_id@);
            if c != k {
                if c < k {
                    assert(acc@[c].device_id@ != it.device_id@);
                } else {
                    assert(acc@[k as int].device_id@ != acc@[c].device_id@);
                }
            }
        }
        acc.set(k, it);
    } else {
        proof {
            if has_id(acc@, it.device_id@) {
                let c = choose|c: int| 0 <= c < acc@.len() && (#[trigger] acc@[c]).device_id@ == it.device_id@;
                assert(acc@[c].device_id@ != it.device_id@);
            }
        }
        acc.push(it);
    }
}

/// Inserts the items of `batch` one after the other.
fn merge_into(acc: &mut Vec<CatalogItem>, batch: Vec<CatalogItem>)
    requires
        ids_distinct(old(acc)@),
    ensures
        final(acc)@ == merge_items(old(acc)@, batch@),
        ids_distinct(final(acc)@),
{
    let mut batch = batch;
    let ghost target = merge_items(acc@, batch@);
    while batch.len() > 0
        invariant
            ids_distinct(acc@),
            merge_items(acc@, batch@) == target,
        decreases batch@.len(),
    {
        let ghost b0 = batch@;
        let it = batch.remove(0);
        assert(b0.drop_first() =~= batch@);
        upsert_item(acc, it);
    }
}

/// Computes the key of a fragment with distinct channel ids.
pub fn fragment_key(batch: &Vec<CatalogItem>) -> (k: String)
    requires
        ids_distinct(batch@),
    ensures
        k@ == fragment_key_of(batch@),
{
    if batch.len() == 0 {
        return copy_str("empty");
    }
    let mut ids: Vec<String> = Vec::new();
    let mut i: usize = 0;
    while i < batch.len()
        invariant
            i <= batch@.len(),
            ids@.len() == i,
            forall|k: int| 0 <= k < i ==> (#[trigger] ids@[k])@ == batch@[k].device_id@,
        decreases batch.len() - i,
    {
        ids.push(copy_str(batch[i].device_id.as_str()));
        i = i + 1;
    }
    assert(strings_view(ids@) =~= item_ids(batch@));
    let sorted = sort_distinct(&ids);
    proof {
        lemma_sorted_of(strings_view(sorted@));
    }
    join_strings(&sorted, ",")
}

/// Records a fragment's declared `Num` under its key.
fn note_fragment(frags: &mut Vec<(String, u32)>, key: String, num: u32)
    requires
        frag_keys_distinct(frags_view(old(frags)@)),
    ensures
        frags_view(final(frags)@) == record_fragment(frags_view(old(frags)@), key@, num),
        frag_keys_distinct(frags_view(final(frags)@)),
{
    let ghost fv = frags_view(frags@);
    let mut k: usize = 0;
    while k < frags.len() && !str_eq(frags[k].0.as_str(), key.as_str())
        invariant
            k <= frags@.len(),
            fv == frags_view(frags@),
            forall|j: int| 0 <= j < k ==> (#[trigger] fv[j]).0 != key@,
        decreases frags.len() - k,
    {
        k = k + 1;
    }
    if k < frags.len() {
        let old_num = frags[k].1;
        let v = if num > old_num {
            num
        } else {
            old_num
        };
        proof {
            assert(fv[k as int].0 == key@);
            assert(has_frag(fv, key@));
            let c = frag_pos(fv, key@);
            if c != k {
                if c < k {
                    assert(fv[c].0 != key@);
                } else {
                    assert(fv[k as int].0 != fv[c].0);
                }
            }
        }
        frags.set(k, (key, v));
        assert(frags_view(frags@) =~= record_fragment(fv, key@, num));
    } else {
        proof {
            if has_frag(fv, key@) {
                let c = choose|c: int| 0 <= c < fv.len() && (#[trigger] fv[c]).0 == key@;
                assert(fv[c].0 != key@);
            }
        }
        frags.push((key, num));
        assert(frags_view(frags@) =~= record_fragment(fv, key@, num));
    }
}

/// Sum of the declared `Num` values of the unique fragments, saturating.
fn received_num(frags: &Vec<(String, u32)>) -> (r: u32)
    ensures
        r == received(frags_view(frags@)),
{
    let ghost fv = frags_view(frags@);
    let mut acc: u32 = 0;
    let mut i: usize = 0;
    while i < frags.len()
        invariant
            i <= frags@.len(),
            fv == frags_view(frags@),
            acc == received(fv.take(i as int)),
        decreases frags.len() - i,
    {
        assert(fv.take(i + 1).drop_last() =~= fv.take(i as int));
        let v = frags[i].1;
        acc = acc.saturating_add(v);
        i = i + 1;
    }
    assert(fv.take(i as int) =~= fv);
    acc
}

impl PartialCatalog {
    fn is_complete(&self) -> (b: bool)
        ensures
            b == complete(self.pview()),
    {
        let distinct = self.items.len();
        if distinct >= self.expected as usize {
            return true;
        }
        received_num(&self.fragments) == self.expected
    }
}

/// No two transfers share a key.
pub open spec fn keys_distinct(es: Seq<(KeyView, PartialView)>) -> bool {
    forall|i: int, j: int| 0 <= i < j < es.len() ==> (#[trigger] es[i]).0 != (#[trigger] es[j]).0
}

/// A transfer with the key is buffered.
pub open spec fn has_key(es: Seq<(KeyView, PartialView)>, k: KeyView) -> bool {
    exists|i: int| 0 <= i < es.len() && (#[trigger] es[i]).0 == k
}

/// Position of the transfer with the key.
pub open spec fn key_pos(es: Seq<(KeyView, PartialView)>, k: KeyView) -> int {
    choose|i: int| 0 <= i < es.len() && (#[trigger] es[i]).0 == k
}

/// The fragments recorded for a new transfer.
pub open spec fn first_fragments(batch: Seq<CatalogItem>, num: u32) -> Seq<(Seq<char>, u32)> {
    if num > 0 || batch.len() > 0 {
        seq![(fragment_key_of(batch), num)]
    } else {
        Seq::empty()
    }
}

/// The buffered transfers after a fragment arrives, and the catalog it
/// completes, if any.
///
/// A fragment declaring no items at all completes at once; one declaring
/// more than `max_items` is dropped; a new transfer is refused when
/// `max_entries` transfers are buffered; a transfer whose distinct items
/// would exceed `max_items` is dropped with the fragment.
pub open spec fn accumulate_result(
    es: Seq<(KeyView, PartialView)>,
    max_entries: nat,
    max_items: nat,
    key: KeyView,
    expected: u32,
    num: u32,
    items: Seq<CatalogItem>,
    now: u64,
) -> (Seq<(KeyView, PartialView)>, Option<Seq<CatalogItem>>) {
    let batch = merge_items(Seq::empty(), items);
    if expected == 0 {
        (es, Some(batch))
    } else if expected > max_items {
        (es, None)
    } else if has_key(es, key) {
        let i = key_pos(es, key);
        let p = es[i].1;
        let merged = merge_items(p.items, batch);
        if merged.len() > max_items {
            (es.remove(i), None)
        } else {
            let q = PartialView {
                items: merged,
                expected: p.expected,
                fragments: record_fragment(p.fragments, fragment_key_of(batch), num),
                last_seen: now,
            };
            if complete(q) {
                (es.remove(i), Some(merged))
            } else {
                (es.update(i, (key, q)), None)
            }
        }
    } else if es.len() >= max_entries {
        (es, None)
    } else if batch.len() > max_items {
        (es, None)
    } else {
        let q = PartialView {
            items: batch,
            expected,
            fragments: first_fragments(batch, num),
            last_seen: now,
        };
        if complete(q) {
            (es, Some(batch))
        } else {
            (es.push((key, q)), None)
        }
    }
}

/// The transfer was seen recently enough to be kept at `now`.
pub open spec fn fresh(now: u64, p: PartialView) -> bool {
    (if now >= p.last_seen {
        now - p.last_seen
    } else {
        0
    }) <= CATALOG_FRAGMENT_TTL_MS
}

/// In-memory accumulator for paginated GB28181 catalog fragments.
#[derive(Debug)]
pub struct CatalogBuffer {
    entries: Vec<(CatalogKey, PartialCatalog)>,
    max_entries: usize,
    max_items_per_entry: usize,
}

impl CatalogBuffer {
    /// The buffered transfers, in arrival order of their first fragment.
    pub closed spec fn view_entries(&self) -> Seq<(KeyView, PartialView)> {
        self.entries@.map_values(|e: (CatalogKey, PartialCatalog)| (e.0.kview(), e.1.pview()))
    }

    /// Most transfers buffered at once.
    pub closed spec fn max_entries_spec(&self) -> nat {
        self.max_entries as nat
    }

    /// Most distinct items per transfer.
    pub closed spec fn max_items_spec(&self) -> nat {
        self.max_items_per_entry as nat
    }

    /// Well-formed: distinct keys, within the limits, and each transfer has
    /// one item per channel id and one value per fragment key.
    pub closed spec fn wf(&self) -> bool {
        &&& keys_distinct(self.view_entries())
        &&& self.entries@.len() <= self.max_entries
        &&& forall|i: int|
            0 <= i < self.entries@.len() ==> (#[trigger] self.entries@[i]).1.pwf()
                && self.entries@[i].1.items@.len() <= self.max_items_per_entry
    }

    /// An empty buffer with the given limits.
    pub fn new(max_entries: usize, max_items_per_entry: usize) -> (b: CatalogBuffer)
        ensures
            b.wf(),
            b.view_entries().len() == 0,
            b.max_entries_spec() == max_entries,
            b.max_items_spec() == max_items_per_entry,
    {
        let b = CatalogBuffer { entries: Vec::new(), max_entries, max_items_per_entry };
        assert(b.view_entries() =~= Seq::<(KeyView, PartialView)>::empty());
        b
    }

    /// Number of transfers buffered.
    pub fn len(&self) -> (n: usize)
        ensures
            n == self.view_entries().len(),
    {
        self.entries.len()
    }

    /// Merges one catalog fragment of `(tenant_id, device_id, sn)` declaring
    /// `expected` items in all and `num` in this fragment, at time `now_ms`.
    /// Returns the whole catalog when the fragment completes it.
    pub fn accumulate(
        &mut self,
        tenant_id: u128,
        device_id: &str,
        sn: &str,
        expected: u32,
        num: u32,
        items: Vec<CatalogItem>,
        now_ms: u64,
    ) -> (r: Option<Vec<CatalogItem>>)
        requires
            old(self).wf(),
        ensures
            final(self).wf(),
            final(self).max_entries_spec() == old(self).max_entries_spec(),
            final(self).max_items_spec() == old(self).max_items_spec(),
            ({
                let res = accumulate_result(
                    old(self).view_entries(),
                    old(self).max_entries_spec(),
                    old(self).max_items_spec(),
                    (tenant_id, device_id@, sn@),
                    expected,
                    num,
                    items@,
                    now_ms,
                );
                &&& final(self).view_entries() == res.0
                &&& match r {
                    Some(v) => res.1 == Some(v@),
                    None => res.1 is None,
                }
            }),
    {
        let ghost es = self.view_entries();
        let ghost key = (tenant_id, device_id@, sn@);
        let mut batch: Vec<CatalogItem> = Vec::new();
        merge_into(&mut batch, items);
        if expected == 0 {
            return Some(batch);
        }
        if expected as usize > self.max_items_per_entry {
            return None;
        }
        let fk = fragment_key(&batch);
        let mut i: usize = 0;
        while i < self.entries.len() && !(self.entries[i].0.tenant_id == tenant_id && str_eq(
            self.entries[i].0.device_id.as_str(),
            device_id,
        ) && str_eq(self.entries[i].0.sn.as_str(), sn))
            invariant
                i <= self.entries@.len(),
                es == self.view_entries(),
                key == (tenant_id, device_id@, sn@),
                forall|j: int| 0 <= j < i ==> (#[trigger] es[j]).0 != key,
            decreases self.entries.len() - i,
        {
            assert(es[i as int].0 == self.entries@[i as int].0.kview());
            i = i + 1;
        }
        if i < self.entries.len() {
            proof {
                assert(es[i as int].0 == key);
                assert(has_key(es, key));
                let c = key_pos(es, key);
                if c != i {
                    if c < i {
                        assert(es[c].0 != key);
                    } else {
                        assert(es[i as int].0 != es[c].0);
                    }
                }
            }
            let ghost old_entries = self.entries@;
            let (k0, mut p) = self.entries.remove(i);
            assert(self.view_entries() =~= es.remove(i as int));
            assert(p.pwf());
            merge_into(&mut p.items, batch);
            if p.items.len() > self.max_items_per_entry {
                proof {
                    assert forall|a: int, b: int|
                        0 <= a < b < self.view_entries().len() implies (#[trigger] self.view_entries()[a]).0
                        != (#[trigger] self.view_entries()[b]).0 by {
                        let sa = if a < i { a } else { a + 1 };
                        let sb = if b < i { b } else { b + 1 };
                        assert(self.view_entries()[a] == es[sa]);
                        assert(self.view_entries()[b] == es[sb]);
                    }
                    assert forall|q: int| 0 <= q < self.entries@.len() implies (#[trigger] self.entries@[q]).1.pwf()
                        && self.entries@[q].1.items@.len() <= self.max_items_per_entry by {
                        let sq = if q < i { q } else { q + 1 };
                        assert(self.entries@[q] == old_entries[sq]);
                    }
                }
                return None;
            }
            note_fragment(&mut p.fragments, fk, num);
            p.last_seen_ms = now_ms;
            if p.is_complete() {
                proof {
                    assert forall|a: int, b: int|
                        0 <= a < b < self.view_entries().len() implies (#[trigger] self.view_entries()[a]).0
                        != (#[trigger] self.view_entries()[b]).0 by {
                        let sa = if a < i { a } else { a + 1 };
                        let sb = if b < i { b } else { b + 1 };
                        assert(self.view_entries()[a] == es[sa]);
                        assert(self.view_entries()[b] == es[sb]);
                    }
                    assert forall|q: int| 0 <= q < self.entries@.len() implies (#[trigger] self.entries@[q]).1.pwf()
                        && self.entries@[q].1.items@.len() <= self.max_items_per_entry by {
                        let sq = if q < i { q } else { q + 1 };
                        assert(self.entries@[q] == old_entries[sq]);
                    }
                }
                return Some(p.items);
            }
            self.entries.insert(i, (k0, p));
            proof {
                assert(self.entries@ =~= old_entries.update(i as int, (k0, p)));
                assert(self.view_entries() =~= es.update(i as int, (key, p.pview())));
                assert forall|q: int| 0 <= q < self.entries@.len() implies (#[trigger] self.entries@[q]).1.pwf()
                    && self.entries@[q].1.items@.len() <= self.max_items_per_entry by {
                    if q != i {
                        assert(self.entries@[q] == old_entries[q]);
                    }
                }
            }
            return None;
        }
        proof {
            if has_key(es, key) {
                let c = choose|c: int| 0 <= c < es.len() && (#[trigger] es[c]).0 == key;
                assert(es[c].0 != key);
            }
        }
        if self.entries.len() >= self.max_entries {
            return None;
        }
        if batch.len() > self.max_items_per_entry {
            return None;
        }
        let mut fragments: Vec<(String, u32)> = Vec::new();
        if num > 0 || batch.len() > 0 {
            fragments.push((fk, num));
        }
        assert(frags_view(fragments@) =~= first_fragments(batch@, num));
        let p = PartialCatalog { items: batch, expected, fragments, last_seen_ms: now_ms };
        if p.is_complete() {
            return Some(p.items);
        }
        let ghost old_entries = self.entries@;
        let key_owned = CatalogKey {
            tenant_id,
            device_id: copy_str(device_id),
            sn: copy_str(sn),
        };
        self.entries.push((key_owned, p));
        proof {
            assert(self.view_entries() =~= es.push((key, p.pview())));
            assert forall|q: int| 0 <= q < self.entries@.len() implies (#[trigger] self.entries@[q]).1.pwf()
                && self.entries@[q].1.items@.len() <= self.max_items_per_entry by {
                if q < old_entries.len() {
                    assert(self.entries@[q] == old_entries[q]);
                }
            }
        }
        None
    }

    /// Drops the transfers not seen within [`CATALOG_FRAGMENT_TTL_MS`] of
    /// `now_ms`; returns how many were dropped.
    pub fn evict(&mut self, now_ms: u64) -> (dropped: usize)
        requires
            old(self).wf(),
        ensures
            final(self).wf(),
            final(self).max_entries_spec() == old(self).max_entries_spec(),
            final(self).max_items_spec() == old(self).max_items_spec(),
            final(self).view_entries() == old(self).view_entries().filter(
                |e: (KeyView, PartialView)| fresh(now_ms, e.1),
            ),
            dropped == old(self).view_entries().len() - final(self).view_entries().len(),
    {
        let ghost es = self.view_entries();
        let ghost olde = self.entries@;
        let mut rest: Vec<(CatalogKey, PartialCatalog)> = Vec::new();
        std::mem::swap(&mut rest, &mut self.entries);
        let before = rest.len();
        let mut n: usize = 0;
        let ghost max_e = self.max_entries;
        let ghost max_i = self.max_items_per_entry;
        while rest.len() > 0
            invariant
                n + rest@.len() == olde.len(),
                olde.len() <= max_e,
                self.max_entries == max_e,
                self.max_items_per_entry == max_i,
                rest@ == olde.skip(n as int),
                es == olde.map_values(|e: (CatalogKey, PartialCatalog)| (e.0.kview(), e.1.pview())),
                keys_distinct(es),
                forall|q: int| 0 <= q < olde.len() ==> (#[trigger] olde[q]).1.pwf()
                    && olde[q].1.items@.len() <= self.max_items_per_entry,
                self.view_entries() == es.take(n as int).filter(
                    |e: (KeyView, PartialView)| fresh(now_ms, e.1),
                ),
                self.entries@.len() <= n,
                forall|q: int| 0 <= q < self.entries@.len() ==> (#[trigger] self.entries@[q]).1.pwf()
                    && self.entries@[q].1.items@.len() <= self.max_items_per_entry,
                forall|q: int|
                    0 <= q < self.entries@.len() ==> exists|s: int|
                        0 <= s < n && (#[trigger] self.view_entries()[q]).0 == es[s].0,
                keys_distinct(self.view_entries()),
            decreases rest@.len(),
        {
            proof {
                reveal(Seq::filter);
                assert(es.take(n + 1).drop_last() =~= es.take(n as int));
            }
            let ghost r0 = rest@;
            let e = rest.remove(0);
            assert(e == olde[n as int]);
            assert(rest@ =~= olde.skip(n + 1));
            let age = if now_ms >= e.1.last_seen_ms {
                now_ms - e.1.last_seen_ms
            } else {
                0
            };
            if age <= CATALOG_FRAGMENT_TTL_MS {
                let ghost prev = self.view_entries();
                let ghost preve = self.entries@;
                self.entries.push(e);
                proof {
                    assert(self.view_entries() =~= prev.push(es[n as int]));
                    assert forall|q: int| 0 <= q < self.entries@.len() implies (#[trigger] self.entries@[q]).1.pwf()
                        && self.entries@[q].1.items@.len() <= self.max_items_per_entry by {
                        if q < preve.len() {
                            assert(self.entries@[q] == preve[q]);
                        }
                    }
                    assert forall|q: int| 0 <= q < self.entries@.len() implies exists|s: int|
                        0 <= s < n + 1 && (#[trigger] self.view_entries()[q]).0 == es[s].0 by {
                        if q < prev.len() {
                            assert(self.view_entries()[q] == prev[q]);
                        } else {
                            assert(self.view_entries()[q] == es[n as int]);
                        }
                    }
                    assert forall|a: int, b: int|
                        0 <= a < b < self.view_entries().len() implies (#[trigger] self.view_entries()[a]).0
                        != (#[trigger] self.view_entries()[b]).0 by {
                        if b == prev.len() {
                            assert(self.view_entries()[a] == prev[a]);
                            let s = choose|s: int| 0 <= s < n && prev[a].0 == es[s].0;
                            assert(es[s].0 != es[n as int].0);
                        } else {
                            assert(self.view_entries()[a] == prev[a]);
                            assert(self.view_entries()[b] == prev[b]);
                        }
                    }
                }
            }
            n = n + 1;
        }
        assert(es.take(n as int) =~= es);
        before - self.entries.len()
    }
}

/// A retransmitted fragment contributes its declared `Num` once: recording
/// the same fragment twice leaves the fragments as recording it once.
pub proof fn law_retransmission_counts_once(f: Seq<(Seq<char>, u32)>, key: Seq<char>, num: u32)
    requires
        frag_keys_distinct(f),
    ensures
        record_fragment(record_fragment(f, key, num), key, num) == record_fragment(f, key, num),
        received(record_fragment(record_fragment(f, key, num), key, num)) == received(
            record_fragment(f, key, num),
        ),
{
    let g = record_fragment(f, key, num);
    let k = if has_frag(f, key) {
        frag_pos(f, key)
    } else {
        f.len() as int
    };
    assert(g[k].0 == key);
    assert(has_frag(g, key));
    let c = frag_pos(g, key);
    if c != k {
        if has_frag(f, key) {
            assert(g[c] == f[c]);
            assert(f[c].0 != f[k].0);
        } else {
            assert(g[c] == f[c]);
            assert(!has_frag(f, key));
            assert(f[c].0 == key);
        }
    }
    assert(record_fragment(g, key, num) =~= g);
}

/// A fragment of a buffered transfer completes it when, the fragment
/// recorded, the declared `Num` values of the transfer's distinct fragments
/// add up to exactly its `SumNum`, or when as many distinct channels as
/// `SumNum` have arrived: the merged items are returned and the transfer
/// leaves the buffer, even if devices dropped items so that fewer distinct
/// channels than declared arrived.
pub proof fn law_declared_total_completes(
    es: Seq<(KeyView, PartialView)>,
    max_entries: nat,
    max_items: nat,
    key: KeyView,
    expected: u32,
    num: u32,
    items: Seq<CatalogItem>,
    now: u64,
)
    requires
        has_key(es, key),
        0 < expected <= max_items,
        merge_items(es[key_pos(es, key)].1.items, merge_items(Seq::empty(), items)).len()
            <= max_items,
        num_sum(
            record_fragment(
                es[key_pos(es, key)].1.fragments,
                fragment_key_of(merge_items(Seq::empty(), items)),
                num,
            ),
        ) == es[key_pos(es, key)].1.expected || merge_items(
            es[key_pos(es, key)].1.items,
            merge_items(Seq::empty(), items),
        ).len() >= es[key_pos(es, key)].1.expected,
    ensures
        accumulate_result(es, max_entries, max_items, key, expected, num, items, now) == (
        es.remove(key_pos(es, key)),
        Some(merge_items(es[key_pos(es, key)].1.items, merge_items(Seq::empty(), items))),
        ),
{
}

/// The first fragment of a transfer that declares all of its `SumNum`
/// items is returned at once and nothing is buffered.
pub proof fn law_whole_first_fragment_completes(
    es: Seq<(KeyView, PartialView)>,
    max_entries: nat,
    max_items: nat,
    key: KeyView,
    expected: u32,
    items: Seq<CatalogItem>,
    now: u64,
)
    requires
        !has_key(es, key),
        es.len() < max_entries,
        0 < expected <= max_items,
        merge_items(Seq::empty(), items).len() <= max_items,
    ensures
        accumulate_result(es, max_entries, max_items, key, expected, expected, items, now) == (
        es,
        Some(merge_items(Seq::empty(), items)),
        ),
{
    let f = first_fragments(merge_items(Seq::empty(), items), expected);
    assert(num_sum(f) == num_sum(f.drop_last()) + expected as nat);
    assert(f.drop_last() =~= Seq::<(Seq<char>, u32)>::empty());
}

/// Accumulated items stay one per channel id, and every item of a merged
/// fragment is found under its channel id afterwards.
pub proof fn law_merge_keeps_ids_distinct(acc: Seq<CatalogItem>, batch: Seq<CatalogItem>)
    requires
        ids_distinct(acc),
    ensures
        ids_distinct(merge_items(acc, batch)),
        forall|j: int| 0 <= j < batch.len() ==> has_id(merge_items(acc, batch), #[trigger] batch[j].device_id@),
    decreases batch.len(),
{
    if batch.len() > 0 {
        let it = batch[0];
        let u = upsert(acc, it);
        if has_id(acc, it.device_id@) {
            let c = id_pos(acc, it.device_id@);
            assert forall|i: int, j: int| 0 <= i < j < u.len() implies (#[trigger] u[i]).device_id@
                != (#[trigger] u[j]).device_id@ by {
                if i == c {
                    assert(acc[c].device_id@ == it.device_id@);
                    assert(acc[j].device_id@ != acc[c].device_id@);
                } else if j == c {
                    assert(acc[i].device_id@ != acc[c].device_id@);
                }
            }
        } else {
            assert forall|i: int, j: int| 0 <= i < j < u.len() implies (#[trigger] u[i]).device_id@
                != (#[trigger] u[j]).device_id@ by {
                if j == acc.len() {
                    assert(u[i] == acc[i]);
                    assert(!(acc[i].device_id@ == it.device_id@));
                }
            }
        }
        law_merge_keeps_ids_distinct(u, batch.drop_first());
        lemma_merge_keeps_ids(u, batch.drop_first(), it.device_id@);
        assert(has_id(u, it.device_id@)) by {
            if has_id(acc, it.device_id@) {
                assert(u[id_pos(acc, it.device_id@)].device_id@ == it.device_id@);
            } else {
                assert(u[acc.len() as int] == it);
            }
        }
        assert forall|j: int| 0 <= j < batch.len() implies has_id(
            merge_items(acc, batch),
            #[trigger] batch[j].device_id@,
        ) by {
            if j > 0 {
                assert(batch[j] == batch.drop_first()[j - 1]);
            }
        }
    }
}

/// An id present before a merge is still present after it.
proof fn lemma_merge_keeps_ids(acc: Seq<CatalogItem>, batch: Seq<CatalogItem>, id: Seq<char>)
    requires
        has_id(acc, id),
    ensures
        has_id(merge_items(acc, batch), id),
    decreases batch.len(),
{
    if batch.len() > 0 {
        let it = batch[0];
        let u = upsert(acc, it);
        let k = choose|k: int| 0 <= k < acc.len() && (#[trigger] acc[k]).device_id@ == id;
        if has_id(acc, it.device_id@) {
            let c = id_pos(acc, it.device_id@);
            if c == k {
                assert(u[k].device_id@ == id);
            } else {
                assert(u[k] == acc[k]);
            }
        } else {
            assert(u[k] == acc[k]);
        }
        lemma_merge_keeps_ids(u, batch.drop_first(), id);
    }
}

/// The key of a fragment depends only on the set of its channel ids.
pub proof fn law_fragment_key_ignores_order(a: Seq<CatalogItem>, b: Seq<CatalogItem>)
    requires
        a.len() > 0,
        b.len() > 0,
        item_ids(a).to_set() == item_ids(b).to_set(),
    ensures
        fragment_key_of(a) == fragment_key_of(b),
{
}

impl CatalogBuffer {
    /// A well-formed buffer holds at most `max_entries` transfers, each with
    /// at most `max_items_per_entry` items, one per channel id.
    pub proof fn law_within_limits(&self)
        requires
            self.wf(),
        ensures
            self.view_entries().len() <= self.max_entries_spec(),
            keys_distinct(self.view_entries()),
            forall|i: int|
                0 <= i < self.view_entries().len() ==> (#[trigger] self.view_entries()[i]).1.items.len()
                    <= self.max_items_spec() && ids_distinct(self.view_entries()[i].1.items),
    {
        assert forall|i: int| 0 <= i < self.view_entries().len() implies (#[trigger] self.view_entries()[i]).1.items.len()
            <= self.max_items_spec() && ids_distinct(self.view_entries()[i].1.items) by {
            assert(self.entries@[i].1.pwf());
        }
    }
}

} // verus!
