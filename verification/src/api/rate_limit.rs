//! Per-source, tenant, protocol and node token-bucket rate limiter.
//!
//! Token counts are kept exactly, in billionths of a token: a bucket that
//! refills at `r` tokens per second gains `r` billionths per elapsed
//! nanosecond.
use crate::text::{
    chars_of, copy_str, find_char, lemma_split_step, nonempty, split_pieces, str_eq,
    string_from_range, strings_view,
};
use vstd::prelude::*;

verus! {

/// Billionths of a token in one token.
pub const TOKEN_SCALE: u128 = 1_000_000_000;

/// Buckets idle longer than this are dropped at cleanup, in nanoseconds;
/// cleanups run this often.
pub const STALE_AFTER_NS: u64 = 60_000_000_000;

/// Most buckets kept after a cleanup.
pub const MAX_BUCKETS: usize = 10_000;

/// The non-empty `/`-separated segments of a path.
pub open spec fn path_segments_of(path: Seq<char>) -> Seq<Seq<char>> {
    nonempty(split_pieces(path, '/'))
}

/// The protocol or resource family of a request path: for
/// `/api/v1/<resource>/...` the resource segment, for `/api/<x>/...` the
/// segment `x`, for `/api` alone `api`; otherwise the first segment, and
/// the empty string for a path without segments.
pub open spec fn protocol_of_path(path: Seq<char>) -> Seq<char> {
    let p = path_segments_of(path);
    if p.len() == 0 {
        Seq::empty()
    } else if p[0] == "api"@ {
        if p.len() == 1 {
            "api"@
        } else if p[1] == "v1"@ {
            if p.len() > 2 {
                p[2]
            } else {
                "api"@
            }
        } else {
            p[1]
        }
    } else {
        p[0]
    }
}

/// The non-empty `/`-separated segments of a path.
pub fn path_segments(path: &str) -> (out: Vec<String>)
    ensures
        strings_view(out@) == path_segments_of(path@),
{
    let v = chars_of(path);
    let ghost whole = path_segments_of(v@);
    let mut out: Vec<String> = Vec::new();
    let mut st: usize = 0;
    let mut done = false;
    assert(v@.skip(0) =~= v@);
    while !done
        invariant
            st <= v.len(),
            v@ == path@,
            whole == path_segments_of(v@),
            !done ==> strings_view(out@) + nonempty(split_pieces(v@.skip(st as int), '/')) == whole,
            done ==> strings_view(out@) == whole,
        decreases v.len() - st + (if done {
            0int
        } else {
            1int
        }),
    {
        let i = find_char(&v, st, v.len(), '/');
        proof {
            assert(v@.subrange(st as int, v@.len() as int) =~= v@.skip(st as int));
            lemma_split_step(v@, '/', st as int, i as int);
        }
        let ghost piece = v@.subrange(st as int, i as int);
        let ghost before = strings_view(out@);
        let ghost rest = if i < v.len() {
            split_pieces(v@.skip(i + 1), '/')
        } else {
            Seq::<Seq<char>>::empty()
        };
        let ghost pieces = split_pieces(v@.skip(st as int), '/');
        assert(pieces == seq![piece] + rest);
        assert(pieces[0] == piece);
        assert(pieces.drop_first() =~= rest);
        if i > st {
            let seg = string_from_range(&v, st, i);
            out.push(seg);
            assert(strings_view(out@) =~= before + seq![piece]);
        } else {
            assert(strings_view(out@) =~= before);
        }
        proof {
            let head = if piece.len() > 0 {
                seq![piece]
            } else {
                Seq::<Seq<char>>::empty()
            };
            assert(nonempty(pieces) == head + nonempty(rest));
            assert(strings_view(out@) =~= before + head);
            assert(before + (head + nonempty(rest)) =~= (before + head) + nonempty(rest));
            if i == v.len() {
                assert(nonempty(rest) =~= Seq::<Seq<char>>::empty());
                assert(strings_view(out@) + Seq::<Seq<char>>::empty() =~= strings_view(out@));
            }
        }
        if i == v.len() {
            done = true;
        } else {
            st = i + 1;
        }
    }
    out
}

/// Extracts the protocol or resource family from an HTTP path, so that rate
/// limits are scoped per API family.
pub fn request_protocol(path: &str) -> (p: String)
    ensures
        p@ == protocol_of_path(path@),
{
    let parts = path_segments(path);
    assert(strings_view(parts@).len() == parts@.len());
    if parts.len() == 0 {
        return String::new();
    }
    assert(strings_view(parts@)[0] == parts@[0]@);
    if str_eq(parts[0].as_str(), "api") {
        if parts.len() == 1 {
            return copy_str("api");
        }
        assert(strings_view(parts@)[1] == parts@[1]@);
        if str_eq(parts[1].as_str(), "v1") {
            if parts.len() > 2 {
                assert(strings_view(parts@)[2] == parts@[2]@);
                return copy_str(parts[2].as_str());
            }
            return copy_str("api");
        }
        return copy_str(parts[1].as_str());
    }
    copy_str(parts[0].as_str())
}

/// Client address of a request.
#[derive(Clone, Copy, Debug, PartialEq, Eq, Structural)]
pub enum SourceAddr {
    /// IPv4 address, as its 32-bit value.
    V4(u32),
    /// IPv6 address, as its 128-bit value.
    V6(u128),
}

/// Composite key of a token bucket.
#[derive(Clone, Debug)]
pub struct RateKey {
    /// Client source address.
    pub source: SourceAddr,
    /// Tenant identifier from the `x-tenant-id` header.
    pub tenant: String,
    /// Protocol or path family, derived from the request path.
    pub protocol: String,
    /// Node identifier handling the request.
    pub node: String,
}

/// A rate key as the contracts see it.
pub type KeyView = (SourceAddr, Seq<char>, Seq<char>, Seq<char>);

impl RateKey {
    /// The key as the contracts see it.
    pub open spec fn kview(&self) -> KeyView {
        (self.source, self.tenant@, self.protocol@, self.node@)
    }
}

/// One bucket: when it was last refilled and how many billionths of a
/// token it holds.
#[derive(Clone, Copy, Debug, PartialEq, Eq, Structural)]
pub struct Bucket {
    /// Time of the last refill, in nanoseconds.
    pub last_update_ns: u64,
    /// Tokens held, in billionths.
    pub tokens: u128,
}

/// Simple token-bucket rate limiter with bounded memory.
#[derive(Debug)]
pub struct RateLimiter {
    capacity: u32,
    refill_per_second: u32,
    buckets: Vec<(RateKey, Bucket)>,
    next_cleanup_ns: u64,
}

/// No two buckets share a key.
pub open spec fn keys_distinct(b: Seq<(KeyView, Bucket)>) -> bool {
    forall|i: int, j: int| 0 <= i < j < b.len() ==> (#[trigger] b[i]).0 != (#[trigger] b[j]).0
}

/// Time from `then` to `now`, or zero when `now` is earlier.
pub open spec fn elapsed(now: u64, then: u64) -> nat {
    if now >= then {
        (now - then) as nat
    } else {
        0
    }
}

/// The bucket after a refill at `now`, capped at the capacity.
pub open spec fn refilled(b: Bucket, now: u64, rate: u32, capacity: u32) -> Bucket {
    let cap = capacity * TOKEN_SCALE;
    let t = b.tokens + elapsed(now, b.last_update_ns) * rate;
    Bucket { last_update_ns: now, tokens: (if t > cap { cap } else { t }) as u128 }
}

/// The buckets kept at a cleanup: those updated after `now` minus the
/// stale interval.
pub open spec fn fresh_buckets(b: Seq<(KeyView, Bucket)>, now: u64) -> Seq<(KeyView, Bucket)> {
    b.filter(|e: (KeyView, Bucket)| e.1.last_update_ns > now - STALE_AFTER_NS)
}

/// Index of the first bucket with the smallest update time.
pub open spec fn oldest_index(b: Seq<(KeyView, Bucket)>) -> int
    decreases b.len(),
{
    if b.len() <= 1 {
        0
    } else {
        let i = oldest_index(b.drop_last());
        if b.last().1.last_update_ns < b[i].1.last_update_ns {
            b.len() - 1
        } else {
            i
        }
    }
}

/// The oldest bucket is within the buckets and no bucket is older.
pub proof fn lemma_oldest_index(b: Seq<(KeyView, Bucket)>)
    requires
        b.len() > 0,
    ensures
        0 <= oldest_index(b) < b.len(),
        forall|j: int| 0 <= j < b.len() ==> b[oldest_index(b)].1.last_update_ns <= (#[trigger] b[j]).1.last_update_ns,
        forall|j: int| 0 <= j < oldest_index(b) ==> b[oldest_index(b)].1.last_update_ns < (#[trigger] b[j]).1.last_update_ns,
    decreases b.len(),
{
    if b.len() > 1 {
        lemma_oldest_index(b.drop_last());
        let i = oldest_index(b.drop_last());
        assert forall|j: int| 0 <= j < b.len() - 1 implies #[trigger] b[j] == b.drop_last()[j] by {}
    }
}

/// Removes oldest buckets until at most `max` remain.
pub open spec fn trim_oldest(b: Seq<(KeyView, Bucket)>, max: nat) -> Seq<(KeyView, Bucket)>
    decreases b.len(),
{
    if b.len() <= max {
        b
    } else {
        proof {
            lemma_oldest_index(b);
        }
        trim_oldest(b.remove(oldest_index(b)), max)
    }
}

/// Buckets after the cleanup that a check at `now` runs, when due.
pub open spec fn cleaned(b: Seq<(KeyView, Bucket)>, now: u64, next_cleanup: u64) -> Seq<
    (KeyView, Bucket),
> {
    if now >= next_cleanup {
        trim_oldest(fresh_buckets(b, now), MAX_BUCKETS as nat)
    } else {
        b
    }
}

/// A bucket with the key is kept.
pub open spec fn has_key(b: Seq<(KeyView, Bucket)>, k: KeyView) -> bool {
    exists|i: int| 0 <= i < b.len() && (#[trigger] b[i]).0 == k
}

/// Position of the bucket with the key.
pub open spec fn key_pos(b: Seq<(KeyView, Bucket)>, k: KeyView) -> int {
    choose|i: int| 0 <= i < b.len() && (#[trigger] b[i]).0 == k
}

/// Buckets, next cleanup time and verdict after a check of key `k` at `now`:
/// a due cleanup drops stale buckets (then the oldest beyond the limit);
/// the key's bucket (new buckets start full) is refilled, and one token is
/// taken when there is one.
pub open spec fn check_result(
    b: Seq<(KeyView, Bucket)>,
    capacity: u32,
    rate: u32,
    next_cleanup: u64,
    k: KeyView,
    now: u64,
) -> (Seq<(KeyView, Bucket)>, u64, bool) {
    if capacity == 0 || rate == 0 {
        (b, next_cleanup, true)
    } else {
        let b1 = cleaned(b, now, next_cleanup);
        let nc = if now >= next_cleanup {
            now.saturating_add(STALE_AFTER_NS)
        } else {
            next_cleanup
        };
        let start = if has_key(b1, k) {
            b1[key_pos(b1, k)].1
        } else {
            Bucket { last_update_ns: now, tokens: (capacity * TOKEN_SCALE) as u128 }
        };
        let r = refilled(start, now, rate, capacity);
        let allowed = r.tokens >= TOKEN_SCALE;
        let r2 = if allowed {
            Bucket { last_update_ns: now, tokens: (r.tokens - TOKEN_SCALE) as u128 }
        } else {
            r
        };
        let b2 = if has_key(b1, k) {
            b1.update(key_pos(b1, k), (k, r2))
        } else {
            b1.push((k, r2))
        };
        (b2, nc, allowed)
    }
}

fn same_key(a: &RateKey, b: &RateKey) -> (r: bool)
    ensures
        r == (a.kview() == b.kview()),
{
    a.source == b.source && str_eq(a.tenant.as_str(), b.tenant.as_str()) && str_eq(
        a.protocol.as_str(),
        b.protocol.as_str(),
    ) && str_eq(a.node.as_str(), b.node.as_str())
}

fn copy_key(k: &RateKey) -> (c: RateKey)
    ensures
        c.kview() == k.kview(),
{
    RateKey {
        source: k.source,
        tenant: copy_str(k.tenant.as_str()),
        protocol: copy_str(k.protocol.as_str()),
        node: copy_str(k.node.as_str()),
    }
}

impl RateLimiter {
    /// Drops stale buckets, then the oldest ones beyond [`MAX_BUCKETS`].
    fn cleanup(&mut self, now_ns: u64)
        requires
            old(self).wf(),
        ensures
            final(self).wf(),
            final(self).capacity == old(self).capacity,
            final(self).refill_per_second == old(self).refill_per_second,
            final(self).next_cleanup_ns == old(self).next_cleanup_ns,
            final(self).buckets_view() == trim_oldest(
                fresh_buckets(old(self).buckets_view(), now_ns),
                MAX_BUCKETS as nat,
            ),
    {
        let ghost bv = self.buckets_view();
        let ghost olde = self.buckets@;
        let ghost cap = self.capacity;
        let mut rest: Vec<(RateKey, Bucket)> = Vec::new();
        std::mem::swap(&mut rest, &mut self.buckets);
        let total = rest.len();
        let mut n: usize = 0;
        while rest.len() > 0
            invariant
                n + rest@.len() == olde.len(),
                olde.len() == total,
                rest@ == olde.skip(n as int),
                bv == olde.map_values(|e: (RateKey, Bucket)| (e.0.kview(), e.1)),
                keys_distinct(bv),
                forall|q: int| 0 <= q < olde.len() ==> (#[trigger] olde[q]).1.tokens <= cap * TOKEN_SCALE,
                self.capacity == cap,
                self.refill_per_second == old(self).refill_per_second,
                self.next_cleanup_ns == old(self).next_cleanup_ns,
                self.buckets_view() == fresh_buckets(bv.take(n as int), now_ns),
                forall|q: int| 0 <= q < self.buckets@.len() ==> (#[trigger] self.buckets@[q]).1.tokens
                    <= cap * TOKEN_SCALE,
                forall|q: int|
                    0 <= q < self.buckets@.len() ==> exists|s: int|
                        0 <= s < n && (#[trigger] self.buckets_view()[q]).0 == bv[s].0,
                keys_distinct(self.buckets_view()),
            decreases rest@.len(),
        {
            proof {
                reveal(Seq::filter);
                assert(bv.take(n + 1).drop_last() =~= bv.take(n as int));
            }
            let e = rest.remove(0);
            assert(e == olde[n as int]);
            assert(rest@ =~= olde.skip(n + 1));
            let fresh = if now_ns >= STALE_AFTER_NS {
                e.1.last_update_ns > now_ns - STALE_AFTER_NS
            } else {
                true
            };
            if fresh {
                let ghost prev = self.buckets_view();
                let ghost preve = self.buckets@;
                self.buckets.push(e);
                proof {
                    assert(self.buckets_view() =~= prev.push(bv[n as int]));
                    assert forall|q: int| 0 <= q < self.buckets@.len() implies (#[trigger] self.buckets@[q]).1.tokens
                        <= cap * TOKEN_SCALE by {
                        if q < preve.len() {
                            assert(self.buckets@[q] == preve[q]);
                        }
                    }
                    assert forall|q: int| 0 <= q < self.buckets@.len() implies exists|s: int|
                        0 <= s < n + 1 && (#[trigger] self.buckets_view()[q]).0 == bv[s].0 by {
                        if q < prev.len() {
                            assert(self.buckets_view()[q] == prev[q]);
                        } else {
                            assert(self.buckets_view()[q] == bv[n as int]);
                        }
                    }
                    assert forall|a: int, b: int|
                        0 <= a < b < self.buckets_view().len() implies (#[trigger] self.buckets_view()[a]).0
                        != (#[trigger] self.buckets_view()[b]).0 by {
                        if b == prev.len() {
                            assert(self.buckets_view()[a] == prev[a]);
                            let s = choose|s: int| 0 <= s < n && prev[a].0 == bv[s].0;
                            assert(bv[s].0 != bv[n as int].0);
                        } else {
                            assert(self.buckets_view()[a] == prev[a]);
                            assert(self.buckets_view()[b] == prev[b]);
                        }
                    }
                }
            }
            n = n + 1;
        }
        assert(bv.take(n as int) =~= bv);
        let ghost target = trim_oldest(self.buckets_view(), MAX_BUCKETS as nat);
        while self.buckets.len() > MAX_BUCKETS
            invariant
                trim_oldest(self.buckets_view(), MAX_BUCKETS as nat) == target,
                keys_distinct(self.buckets_view()),
                forall|q: int| 0 <= q < self.buckets@.len() ==> (#[trigger] self.buckets@[q]).1.tokens
                    <= cap * TOKEN_SCALE,
                self.capacity == cap,
                self.refill_per_second == old(self).refill_per_second,
                self.next_cleanup_ns == old(self).next_cleanup_ns,
            decreases self.buckets@.len(),
        {
            let ghost v0 = self.buckets_view();
            let ghost e0 = self.buckets@;
            let mut m: usize = 0;
            let mut j: usize = 1;
            assert(v0.take(1).drop_last() =~= Seq::<(KeyView, Bucket)>::empty());
            while j < self.buckets.len()
                invariant
                    1 <= j <= self.buckets@.len(),
                    v0 == self.buckets_view(),
                    m < j,
                    m == oldest_index(v0.take(j as int)),
                decreases self.buckets.len() - j,
            {
                assert(v0.take(j + 1).drop_last() =~= v0.take(j as int));
                assert(v0.take(j + 1).last() == v0[j as int]);
                assert(v0.take(j as int)[m as int] == v0[m as int]);
                if self.buckets[j].1.last_update_ns < self.buckets[m].1.last_update_ns {
                    m = j;
                }
                j = j + 1;
            }
            assert(v0.take(j as int) =~= v0);
            self.buckets.remove(m);
            proof {
                assert(self.buckets_view() =~= v0.remove(m as int));
                assert forall|a: int, b: int|
                    0 <= a < b < self.buckets_view().len() implies (#[trigger] self.buckets_view()[a]).0
                    != (#[trigger] self.buckets_view()[b]).0 by {
                    let sa = if a < m { a } else { a + 1 };
                    let sb = if b < m { b } else { b + 1 };
                    assert(self.buckets_view()[a] == v0[sa]);
                    assert(self.buckets_view()[b] == v0[sb]);
                }
                assert forall|q: int| 0 <= q < self.buckets@.len() implies (#[trigger] self.buckets@[q]).1.tokens
                    <= cap * TOKEN_SCALE by {
                    let sq = if q < m { q } else { q + 1 };
                    assert(self.buckets@[q] == e0[sq]);
                }
            }
        }
    }

    /// Returns true when `key` is within its quota at time `now_ns`,
    /// taking one token from its bucket; always true when disabled.
    pub fn check(&mut self, key: &RateKey, now_ns: u64) -> (allowed: bool)
        requires
            old(self).wf(),
        ensures
            final(self).wf(),
            final(self).capacity_spec() == old(self).capacity_spec(),
            final(self).rate_spec() == old(self).rate_spec(),
            ({
                let r = check_result(
                    old(self).buckets_view(),
                    old(self).capacity_spec(),
                    old(self).rate_spec(),
                    old(self).next_cleanup_spec(),
                    key.kview(),
                    now_ns,
                );
                &&& final(self).buckets_view() == r.0
                &&& final(self).next_cleanup_spec() == r.1
                &&& allowed == r.2
            }),
    {
        if self.capacity == 0 || self.refill_per_second == 0 {
            return true;
        }
        if now_ns >= self.next_cleanup_ns {
            self.cleanup(now_ns);
            self.next_cleanup_ns = now_ns.saturating_add(STALE_AFTER_NS);
        }
        let ghost b1 = self.buckets_view();
        let ghost k = key.kview();
        let mut i: usize = 0;
        while i < self.buckets.len() && !same_key(&self.buckets[i].0, key)
            invariant
                i <= self.buckets@.len(),
                b1 == self.buckets_view(),
                k == key.kview(),
                forall|j: int| 0 <= j < i ==> (#[trigger] b1[j]).0 != k,
            decreases self.buckets.len() - i,
        {
            assert(b1[i as int].0 == self.buckets@[i as int].0.kview());
            i = i + 1;
        }
        let cap: u128 = (self.capacity as u128) * TOKEN_SCALE;
        let found = i < self.buckets.len();
        let start = if found {
            proof {
                assert(b1[i as int].0 == k);
                assert(has_key(b1, k));
                let c = key_pos(b1, k);
                if c != i {
                    if c < i {
                        assert(b1[c].0 != k);
                    } else {
                        assert(b1[i as int].0 != b1[c].0);
                    }
                }
            }
            self.buckets[i].1
        } else {
            proof {
                if has_key(b1, k) {
                    let c = choose|c: int| 0 <= c < b1.len() && (#[trigger] b1[c]).0 == k;
                    assert(b1[c].0 != k);
                }
            }
            Bucket { last_update_ns: now_ns, tokens: cap }
        };
        let el: u64 = if now_ns >= start.last_update_ns {
            now_ns - start.last_update_ns
        } else {
            0
        };
        assert(start.tokens <= cap) by {
            if found {
                assert(self.buckets@[i as int].1 == start);
            }
        }
        let rate = self.refill_per_second;
        assert((el as u128) * (rate as u128) <= 0xffff_ffff_ffff_ffffu128 * 0xffff_ffffu128)
            by (nonlinear_arith)
            requires
                el <= 0xffff_ffff_ffff_ffffu64,
                rate <= 0xffff_ffffu32,
        ;
        let t = start.tokens + (el as u128) * (rate as u128);
        let refilled_tokens = if t > cap {
            cap
        } else {
            t
        };
        let allowed = refilled_tokens >= TOKEN_SCALE;
        let new_bucket = if allowed {
            Bucket { last_update_ns: now_ns, tokens: refilled_tokens - TOKEN_SCALE }
        } else {
            Bucket { last_update_ns: now_ns, tokens: refilled_tokens }
        };
        let ghost old_entries = self.buckets@;
        if found {
            let owned_key = copy_key(key);
            self.buckets.set(i, (owned_key, new_bucket));
            proof {
                assert(self.buckets_view() =~= b1.update(i as int, (k, new_bucket)));
                assert forall|a: int, b: int|
                    0 <= a < b < self.buckets_view().len() implies (#[trigger] self.buckets_view()[a]).0
                    != (#[trigger] self.buckets_view()[b]).0 by {
                    assert(b1[i as int].0 == k);
                }
                assert forall|q: int| 0 <= q < self.buckets@.len() implies (#[trigger] self.buckets@[q]).1.tokens
                    <= self.capacity * TOKEN_SCALE by {
                    if q != i {
                        assert(self.buckets@[q] == old_entries[q]);
                    }
                }
            }
        } else {
            let owned_key = copy_key(key);
            self.buckets.push((owned_key, new_bucket));
            proof {
                assert(self.buckets_view() =~= b1.push((k, new_bucket)));
                assert forall|a: int, b: int|
                    0 <= a < b < self.buckets_view().len() implies (#[trigger] self.buckets_view()[a]).0
                    != (#[trigger] self.buckets_view()[b]).0 by {
                    if b == b1.len() {
                        assert(self.buckets_view()[a] == b1[a]);
                    }
                }
                assert forall|q: int| 0 <= q < self.buckets@.len() implies (#[trigger] self.buckets@[q]).1.tokens
                    <= self.capacity * TOKEN_SCALE by {
                    if q < old_entries.len() {
                        assert(self.buckets@[q] == old_entries[q]);
                    }
                }
            }
        }
        allowed
    }

    /// The buckets as the contracts see them.
    pub closed spec fn buckets_view(&self) -> Seq<(KeyView, Bucket)> {
        self.buckets@.map_values(|e: (RateKey, Bucket)| (e.0.kview(), e.1))
    }

    /// Burst capacity.
    pub closed spec fn capacity_spec(&self) -> u32 {
        self.capacity
    }

    /// Refill rate, in tokens per second.
    pub closed spec fn rate_spec(&self) -> u32 {
        self.refill_per_second
    }

    /// When the next cleanup is due, in nanoseconds.
    pub closed spec fn next_cleanup_spec(&self) -> u64 {
        self.next_cleanup_ns
    }

    /// Well-formed: one bucket per key, none above capacity.
    pub closed spec fn wf(&self) -> bool {
        &&& keys_distinct(self.buckets_view())
        &&& forall|i: int|
            0 <= i < self.buckets@.len() ==> (#[trigger] self.buckets@[i]).1.tokens <= self.capacity
                * TOKEN_SCALE
    }

    /// No limit is configured.
    pub open spec fn disabled(&self) -> bool {
        self.capacity_spec() == 0 || self.rate_spec() == 0
    }

    /// Creates a rate limiter at time `now_ns`. A zero `capacity` or
    /// `refill_per_second` disables limiting.
    pub fn new(capacity: u32, refill_per_second: u32, now_ns: u64) -> (r: RateLimiter)
        ensures
            r.wf(),
            r.capacity_spec() == capacity,
            r.rate_spec() == refill_per_second,
            r.buckets_view().len() == 0,
            r.next_cleanup_spec() == now_ns.saturating_add(STALE_AFTER_NS),
    {
        let r = RateLimiter {
            capacity,
            refill_per_second,
            buckets: Vec::new(),
            next_cleanup_ns: now_ns.saturating_add(STALE_AFTER_NS),
        };
        assert(r.buckets_view() =~= Seq::<(KeyView, Bucket)>::empty());
        r
    }

    /// Returns true when no rate limit is configured.
    pub fn is_disabled(&self) -> (b: bool)
        ensures
            b == self.disabled(),
    {
        self.capacity == 0 || self.refill_per_second == 0
    }
}

/// Without a configured limit every request is allowed and nothing is kept.
pub proof fn law_disabled_allows_all(
    b: Seq<(KeyView, Bucket)>,
    capacity: u32,
    rate: u32,
    next_cleanup: u64,
    k: KeyView,
    now: u64,
)
    requires
        capacity == 0 || rate == 0,
    ensures
        check_result(b, capacity, rate, next_cleanup, k, now) == (b, next_cleanup, true),
{
}

/// The first request of a key is allowed, and leaves its bucket one token
/// short of full.
pub proof fn law_new_key_allowed(
    b: Seq<(KeyView, Bucket)>,
    capacity: u32,
    rate: u32,
    next_cleanup: u64,
    k: KeyView,
    now: u64,
)
    requires
        capacity > 0,
        rate > 0,
        !has_key(cleaned(b, now, next_cleanup), k),
    ensures
        check_result(b, capacity, rate, next_cleanup, k, now).2,
        check_result(b, capacity, rate, next_cleanup, k, now).0.last() == (
        k,
        Bucket { last_update_ns: now, tokens: (capacity * TOKEN_SCALE - TOKEN_SCALE) as u128 },
    ),
{
    let b1 = cleaned(b, now, next_cleanup);
    assert(capacity * TOKEN_SCALE >= TOKEN_SCALE) by (nonlinear_arith)
        requires
            capacity >= 1,
    ;
}

/// A refused request is refused again when repeated at the same instant
/// (no cleanup being due): refusal takes no token and time alone refills.
pub proof fn law_refusal_repeats_at_same_instant(
    b: Seq<(KeyView, Bucket)>,
    capacity: u32,
    rate: u32,
    next_cleanup: u64,
    k: KeyView,
    now: u64,
)
    requires
        keys_distinct(b),
        now < next_cleanup,
        !check_result(b, capacity, rate, next_cleanup, k, now).2,
    ensures
        ({
            let r = check_result(b, capacity, rate, next_cleanup, k, now);
            !check_result(r.0, capacity, rate, r.1, k, now).2
        }),
{
    let r = check_result(b, capacity, rate, next_cleanup, k, now);
    let b1 = cleaned(b, now, next_cleanup);
    assert(b1 == b);
    assert(capacity > 0 && rate > 0);
    assert(capacity * TOKEN_SCALE >= TOKEN_SCALE) by (nonlinear_arith)
        requires
            capacity >= 1,
    ;
    assert(elapsed(now, now) == 0);
    assert(r.1 == next_cleanup);
    assert(cleaned(r.0, now, r.1) == r.0);
    let p = if has_key(b, k) {
        let i = key_pos(b, k);
        assert(r.0[i].0 == k);
        assert(has_key(r.0, k));
        let j = key_pos(r.0, k);
        assert(r.0[j].0 == k);
        if j != i {
            assert(r.0[j] == b[j]);
            assert(b[j].0 == b[i].0);
        }
        i
    } else {
        let n = b.len() as int;
        assert(r.0[n].0 == k);
        assert(has_key(r.0, k));
        let j = key_pos(r.0, k);
        if j != n {
            assert(r.0[j] == b[j]);
            assert(b[j].0 == k);
        }
        n
    };
    assert(key_pos(r.0, k) == p);
    let bk = r.0[p].1;
    assert(bk.last_update_ns == now);
    assert(bk.tokens < TOKEN_SCALE);
    assert(refilled(bk, now, rate, capacity).tokens == bk.tokens);
}

} // verus!
