//! Device registration and presence decisions for GB28181 devices.
use crate::text::{copy_str, str_eq};
use vstd::prelude::*;

verus! {

/// What bringing a device online takes.
#[derive(Clone, Debug)]
pub enum OnlinePlan {
    /// Nothing to do: the device is unknown and this is only a keepalive.
    Nothing,
    /// The device is known; mark it online when `mark` holds, with the
    /// reason `gb28181 online`.
    Known { mark: bool },
    /// Register the device (protocol, authority and name from its GB28181
    /// identity, kind camera), then mark it online with the reason
    /// `gb28181 registered`.
    Register {
        protocol: String,
        external_id: String,
        authority: String,
        name: String,
        kind: String,
    },
}

/// Decides how to bring a device online. `known` holds whether a known
/// device is online already; `force` is set for registrations and presence
/// reports, clear for keepalives.
pub fn plan_ensure_online(known: Option<bool>, force: bool, external_id: &str) -> (p: OnlinePlan)
    ensures
        match known {
            Some(online) => p matches OnlinePlan::Known { mark } && mark == (force || !online),
            None => if force {
                p matches OnlinePlan::Register { protocol, external_id: e, authority, name, kind }
                    && protocol@ == "gb28181"@ && e@ == external_id@ && authority@ == "gb28181"@
                    && name@ == external_id@ && kind@ == "camera"@
            } else {
                p is Nothing
            },
        },
{
    match known {
        Some(online) => OnlinePlan::Known { mark: force || !online },
        None => if force {
            OnlinePlan::Register {
                protocol: copy_str("gb28181"),
                external_id: copy_str(external_id),
                authority: copy_str("gb28181"),
                name: copy_str(external_id),
                kind: copy_str("camera"),
            }
        } else {
            OnlinePlan::Nothing
        },
    }
}

/// The value recorded last for `key`, if any.
pub open spec fn meta_lookup(m: Seq<(String, String)>, key: Seq<char>) -> Option<Seq<char>>
    decreases m.len(),
{
    if m.len() == 0 {
        None
    } else if m.last().0@ == key {
        Some(m.last().1@)
    } else {
        meta_lookup(m.drop_last(), key)
    }
}

/// No two entries share a key.
pub open spec fn meta_keys_distinct(m: Seq<(String, String)>) -> bool {
    forall|i: int, j: int| 0 <= i < j < m.len() ==> (#[trigger] m[i]).0@ != (#[trigger] m[j]).0@
}

proof fn lemma_lookup_found(m: Seq<(String, String)>, k: int)
    requires
        meta_keys_distinct(m),
        0 <= k < m.len(),
    ensures
        meta_lookup(m, m[k].0@) == Some(m[k].1@),
    decreases m.len(),
{
    if k < m.len() - 1 {
        assert(m.last().0@ != m[k].0@);
        assert(m.drop_last()[k] == m[k]);
        lemma_lookup_found(m.drop_last(), k);
    }
}

proof fn lemma_lookup_absent(m: Seq<(String, String)>, key: Seq<char>)
    requires
        forall|i: int| 0 <= i < m.len() ==> (#[trigger] m[i]).0@ != key,
    ensures
        meta_lookup(m, key) is None,
    decreases m.len(),
{
    if m.len() > 0 {
        assert(m.last() == m[m.len() - 1]);
        assert forall|i: int| 0 <= i < m.drop_last().len() implies (#[trigger] m.drop_last()[i]).0@
            != key by {
            assert(m.drop_last()[i] == m[i]);
        }
        lemma_lookup_absent(m.drop_last(), key);
    }
}

proof fn lemma_lookup_distinct(m: Seq<(String, String)>, key: Seq<char>)
    requires
        meta_keys_distinct(m),
    ensures
        match meta_lookup(m, key) {
            Some(v) => exists|k: int| 0 <= k < m.len() && (#[trigger] m[k]).0@ == key && m[k].1@ == v,
            None => forall|i: int| 0 <= i < m.len() ==> (#[trigger] m[i]).0@ != key,
        },
    decreases m.len(),
{
    if m.len() > 0 {
        let d = m.drop_last();
        assert forall|i: int, j: int| 0 <= i < j < d.len() implies (#[trigger] d[i]).0@ != (
        #[trigger] d[j]).0@ by {
            assert(d[i] == m[i]);
            assert(d[j] == m[j]);
        }
        lemma_lookup_distinct(d, key);
        if m.last().0@ != key {
            match meta_lookup(d, key) {
                Some(v) => {
                    let k = choose|k: int| 0 <= k < d.len() && (#[trigger] d[k]).0@ == key && d[k].1@ == v;
                    assert(m[k] == d[k]);
                },
                None => {
                    assert forall|i: int| 0 <= i < m.len() implies (#[trigger] m[i]).0@ != key by {
                        if i < d.len() {
                            assert(m[i] == d[i]);
                        }
                    }
                },
            }
        } else {
            assert(m[m.len() - 1] == m.last());
        }
    }
}

/// Merges metadata entries into a device's metadata: every new value
/// replaces the value of its key; other keys keep theirs.
pub fn merge_metadata(existing: &Vec<(String, String)>, updates: &Vec<(String, String)>) -> (merged: Vec<
    (String, String),
>)
    requires
        meta_keys_distinct(existing@),
    ensures
        meta_keys_distinct(merged@),
        forall|key: Seq<char>|
            #[trigger] meta_lookup(merged@, key) == match meta_lookup(updates@, key) {
                Some(v) => Some(v),
                None => meta_lookup(existing@, key),
            },
{
    let mut out: Vec<(String, String)> = Vec::new();
    let mut i: usize = 0;
    while i < existing.len()
        invariant
            i <= existing@.len(),
            meta_keys_distinct(existing@),
            out@.len() == i,
            forall|k: int| 0 <= k < i ==> (#[trigger] out@[k]).0@ == existing@[k].0@ && out@[k].1@
                == existing@[k].1@,
        decreases existing.len() - i,
    {
        out.push((copy_str(existing[i].0.as_str()), copy_str(existing[i].1.as_str())));
        i = i + 1;
    }
    proof {
        assert(meta_keys_distinct(out@)) by {
            assert forall|a: int, b: int| 0 <= a < b < out@.len() implies (#[trigger] out@[a]).0@
                != (#[trigger] out@[b]).0@ by {
                assert(existing@[a].0@ != existing@[b].0@);
            }
        }
        assert forall|key: Seq<char>| #[trigger] meta_lookup(out@, key) == meta_lookup(existing@, key) by {
            lemma_lookup_distinct(existing@, key);
            lemma_lookup_distinct(out@, key);
            match meta_lookup(existing@, key) {
                Some(v) => {
                    let k = choose|k: int| 0 <= k < existing@.len() && (#[trigger] existing@[k]).0@ == key && existing@[k].1@ == v;
                    lemma_lookup_found(out@, k);
                },
                None => {
                    lemma_lookup_absent(out@, key);
                },
            }
        }
    }
    let mut j: usize = 0;
    while j < updates.len()
        invariant
            j <= updates@.len(),
            meta_keys_distinct(out@),
            forall|key: Seq<char>|
                #[trigger] meta_lookup(out@, key) == match meta_lookup(updates@.take(j as int), key) {
                    Some(v) => Some(v),
                    None => meta_lookup(existing@, key),
                },
        decreases updates.len() - j,
    {
        let key = &updates[j].0;
        let ghost o0 = out@;
        let mut p: usize = 0;
        while p < out.len() && !str_eq(out[p].0.as_str(), key.as_str())
            invariant
                p <= out@.len(),
                out@ == o0,
                forall|q: int| 0 <= q < p ==> (#[trigger] o0[q]).0@ != key@,
            decreases out.len() - p,
        {
            p = p + 1;
        }
        let entry = (copy_str(key.as_str()), copy_str(updates[j].1.as_str()));
        if p < out.len() {
            out.set(p, entry);
        } else {
            out.push(entry);
        }
        proof {
            let t1 = updates@.take(j + 1);
            assert(t1.drop_last() =~= updates@.take(j as int));
            assert(t1.last() == updates@[j as int]);
            assert(meta_keys_distinct(out@)) by {
                assert forall|a: int, b: int| 0 <= a < b < out@.len() implies (#[trigger] out@[a]).0@
                    != (#[trigger] out@[b]).0@ by {
                    if a == p {
                        assert(o0[b].0@ != o0[p as int].0@ || b == p);
                    } else if b == p && p < o0.len() {
                        assert(o0[a].0@ != o0[p as int].0@);
                    } else if b == p {
                        assert(o0[a].0@ != key@);
                    }
                }
            }
            assert forall|k2: Seq<char>| #[trigger] meta_lookup(out@, k2) == match meta_lookup(t1, k2) {
                Some(v) => Some(v),
                None => meta_lookup(existing@, k2),
            } by {
                lemma_lookup_distinct(out@, k2);
                lemma_lookup_distinct(o0, k2);
                if k2 == key@ {
                    lemma_lookup_found(out@, p as int);
                } else {
                    assert(meta_lookup(t1, k2) == meta_lookup(updates@.take(j as int), k2));
                    match meta_lookup(o0, k2) {
                        Some(v) => {
                            let k = choose|k: int| 0 <= k < o0.len() && (#[trigger] o0[k]).0@ == k2 && o0[k].1@ == v;
                            assert(k != p);
                            assert(out@[k] == o0[k]);
                            lemma_lookup_found(out@, k);
                        },
                        None => {
                            assert forall|i: int| 0 <= i < out@.len() implies (#[trigger] out@[i]).0@ != k2 by {
                                if i != p && i < o0.len() {
                                    assert(out@[i] == o0[i]);
                                }
                            }
                            lemma_lookup_absent(out@, k2);
                        },
                    }
                }
            }
        }
        j = j + 1;
    }
    assert(updates@.take(j as int) =~= updates@);
    out
}

} // verus!
