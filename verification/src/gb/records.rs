//! Record-info responses: the payload recorded for the recordings found.
use crate::gb::catalog::{entries_view, opt_entry, push_opt};
use crate::gb::events::{entry, RecordItem};
use crate::gb::lex::{lemma_lex_transitive, lex_lt, strictly_sorted};
use crate::json::{json_array_of_objects, json_of_maps, keys_of};
use crate::text::{copy_str, decimal, to_decimal};
use vstd::prelude::*;

verus! {

/// Entries describing one recording, in key order.
pub open spec fn record_map(r: RecordItem) -> Seq<(Seq<char>, Seq<char>)> {
    entry("device_id"@, r.device_id@) + opt_entry("end_time"@, r.end_time) + opt_entry(
        "file_path"@,
        r.file_path,
    ) + opt_entry("file_size"@, r.file_size) + opt_entry("name"@, r.name) + opt_entry(
        "record_type"@,
        r.record_type,
    ) + opt_entry("recorder_id"@, r.recorder_id) + opt_entry("secrecy"@, r.secrecy) + opt_entry(
        "start_time"@,
        r.start_time,
    )
}

/// Keys added after `acc` by an optional entry keep the keys strictly
/// ascending, and below `next` when `key` is.
proof fn lemma_sorted_opt(acc: Seq<(Seq<char>, Seq<char>)>, key: Seq<char>, v: Option<String>, next: Seq<char>)
    requires
        strictly_sorted(keys_of(acc)),
        forall|i: int| 0 <= i < acc.len() ==> lex_lt(#[trigger] keys_of(acc)[i], key),
        lex_lt(key, next),
    ensures
        strictly_sorted(keys_of(acc + opt_entry(key, v))),
        forall|i: int| 0 <= i < (acc + opt_entry(key, v)).len() ==> lex_lt(#[trigger] keys_of(acc + opt_entry(key, v))[i], next),
{
    let n = acc + opt_entry(key, v);
    let k = keys_of(n);
    assert forall|i: int| 0 <= i < acc.len() implies k[i] == keys_of(acc)[i] by {}
    if v is Some {
        assert(k[acc.len() as int] == key);
    }
    assert forall|i: int| 0 <= i < n.len() implies lex_lt(#[trigger] k[i], next) by {
        if i < acc.len() {
            assert(lex_lt(keys_of(acc)[i], key));
            lemma_lex_transitive(k[i], key, next);
        }
    }
    assert forall|i: int, j: int| 0 <= i < j < k.len() implies lex_lt(#[trigger] k[i], #[trigger] k[j]) by {
        if j < acc.len() {
            assert(lex_lt(keys_of(acc)[i], keys_of(acc)[j]));
        } else {
            assert(lex_lt(keys_of(acc)[i], key));
        }
    }
}

/// The keys of the entries describing a recording are strictly ascending.
proof fn lemma_record_keys_sorted(r: RecordItem)
    ensures
        strictly_sorted(keys_of(record_map(r))),
{
    reveal_strlit("device_id");
    reveal_strlit("end_time");
    reveal_strlit("file_path");
    reveal_strlit("file_size");
    reveal_strlit("name");
    reveal_strlit("record_type");
    reveal_strlit("recorder_id");
    reveal_strlit("secrecy");
    reveal_strlit("start_time");
    reveal_strlit("t");
    reveal_with_fuel(lex_lt, 8);
    assert(lex_lt("device_id"@, "end_time"@));
    assert(lex_lt("end_time"@, "file_path"@));
    assert(lex_lt("file_path"@, "file_size"@));
    assert(lex_lt("file_size"@, "name"@));
    assert(lex_lt("name"@, "record_type"@));
    assert(lex_lt("record_type"@, "recorder_id"@));
    assert(lex_lt("recorder_id"@, "secrecy"@));
    assert(lex_lt("secrecy"@, "start_time"@));
    assert(lex_lt("start_time"@, "t"@));
    let a0 = entry("device_id"@, r.device_id@);
    assert(keys_of(a0) =~= seq!["device_id"@]);
    let a1 = a0 + opt_entry("end_time"@, r.end_time);
    lemma_sorted_opt(a0, "end_time"@, r.end_time, "file_path"@);
    let a2 = a1 + opt_entry("file_path"@, r.file_path);
    lemma_sorted_opt(a1, "file_path"@, r.file_path, "file_size"@);
    let a3 = a2 + opt_entry("file_size"@, r.file_size);
    lemma_sorted_opt(a2, "file_size"@, r.file_size, "name"@);
    let a4 = a3 + opt_entry("name"@, r.name);
    lemma_sorted_opt(a3, "name"@, r.name, "record_type"@);
    let a5 = a4 + opt_entry("record_type"@, r.record_type);
    lemma_sorted_opt(a4, "record_type"@, r.record_type, "recorder_id"@);
    let a6 = a5 + opt_entry("recorder_id"@, r.recorder_id);
    lemma_sorted_opt(a5, "recorder_id"@, r.recorder_id, "secrecy"@);
    let a7 = a6 + opt_entry("secrecy"@, r.secrecy);
    lemma_sorted_opt(a6, "secrecy"@, r.secrecy, "start_time"@);
    lemma_sorted_opt(a7, "start_time"@, r.start_time, "t"@);
    assert(a7 + opt_entry("start_time"@, r.start_time) == record_map(r));
}

fn record_entries(r: &RecordItem) -> (m: Vec<(String, String)>)
    ensures
        entries_view(m@) == record_map(*r),
{
    let mut m: Vec<(String, String)> = Vec::new();
    m.push((copy_str("device_id"), copy_str(r.device_id.as_str())));
    push_opt(&mut m, "end_time", &r.end_time);
    push_opt(&mut m, "file_path", &r.file_path);
    push_opt(&mut m, "file_size", &r.file_size);
    push_opt(&mut m, "name", &r.name);
    push_opt(&mut m, "record_type", &r.record_type);
    push_opt(&mut m, "recorder_id", &r.recorder_id);
    push_opt(&mut m, "secrecy", &r.secrecy);
    push_opt(&mut m, "start_time", &r.start_time);
    assert(entries_view(m@) =~= record_map(*r));
    m
}

/// Serializes recordings as a JSON array of objects, one per recording.
pub fn serialize_record_items(records: &Vec<RecordItem>) -> (s: String)
    ensures
        s@ == json_array_of_objects(records@.map_values(|r: RecordItem| record_map(r))),
{
    let mut maps: Vec<Vec<(String, String)>> = Vec::new();
    let mut i: usize = 0;
    while i < records.len()
        invariant
            i <= records@.len(),
            maps@.len() == i,
            forall|k: int| 0 <= k < i ==> entries_view((#[trigger] maps@[k])@) == record_map(records@[k]),
            forall|k: int| 0 <= k < i ==> strictly_sorted(keys_of(entries_view((#[trigger] maps@[k])@))),
        decreases records.len() - i,
    {
        proof {
            lemma_record_keys_sorted(records@[i as int]);
        }
        maps.push(record_entries(&records[i]));
        i = i + 1;
    }
    assert(maps@.map_values(|m: Vec<(String, String)>| entries_view(m@)) =~= records@.map_values(
        |r: RecordItem| record_map(r),
    ));
    json_of_maps(&maps)
}

/// Payload recorded for a record-info response, in key order; the
/// recordings themselves are included when there are any.
pub open spec fn record_info_payload_of(
    sn: Seq<char>,
    sum_num: u32,
    num: u32,
    records: Seq<RecordItem>,
) -> Seq<(Seq<char>, Seq<char>)> {
    entry("num"@, decimal(num as nat)) + entry("record_count"@, decimal(records.len())) + (if records.len()
        > 0 {
        entry("records"@, json_array_of_objects(records.map_values(|r: RecordItem| record_map(r))))
    } else {
        Seq::empty()
    }) + entry("sn"@, sn) + entry("sum_num"@, decimal(sum_num as nat))
}

/// Builds the payload recorded for a record-info response.
pub fn record_info_payload(sn: &str, sum_num: u32, num: u32, records: &Vec<RecordItem>) -> (p: Vec<
    (String, String),
>)
    ensures
        entries_view(p@) == record_info_payload_of(sn@, sum_num, num, records@),
{
    let mut p: Vec<(String, String)> = Vec::new();
    p.push((copy_str("num"), to_decimal(num as u64)));
    p.push((copy_str("record_count"), to_decimal(records.len() as u64)));
    if records.len() > 0 {
        p.push((copy_str("records"), serialize_record_items(records)));
    }
    p.push((copy_str("sn"), copy_str(sn)));
    p.push((copy_str("sum_num"), to_decimal(sum_num as u64)));
    assert(entries_view(p@) =~= record_info_payload_of(sn@, sum_num, num, records@));
    p
}

} // verus!
