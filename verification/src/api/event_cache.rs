//! Bounded in-memory cache of recent events for server-sent event streams.
use crate::text::str_eq;
use vstd::prelude::*;

verus! {

/// A cached event with its cursor and pre-serialized JSON.
#[derive(Clone, Debug)]
pub struct CachedEvent {
    /// Position of the event in the stream.
    pub cursor: u64,
    /// Tenant of the event.
    pub tenant_id: String,
    /// Device the event is about, if any.
    pub device_id: Option<String>,
    /// Event type.
    pub event_type: String,
    /// The event as JSON.
    pub json: String,
}

/// Bounded cache that keeps the most recent events for slow consumers.
#[derive(Debug)]
pub struct EventCache {
    capacity: usize,
    next_cursor: u64,
    latest: u64,
    buffer: Vec<CachedEvent>,
}

/// The event passes the optional tenant, device and type filters.
pub open spec fn passes(
    e: CachedEvent,
    after: u64,
    tenant: Option<Seq<char>>,
    device: Option<Seq<char>>,
    event_type: Option<Seq<char>>,
) -> bool {
    &&& e.cursor > after
    &&& (tenant matches Some(t) ==> e.tenant_id@ == t)
    &&& (device matches Some(d) ==> (e.device_id matches Some(x) && x@ == d))
    &&& (event_type matches Some(t) ==> e.event_type@ == t)
}

/// Cursors strictly increase along the buffer and stay below `next`.
pub open spec fn ordered_below(buf: Seq<CachedEvent>, next: u64) -> bool {
    &&& forall|i: int, j: int| 0 <= i < j < buf.len() ==> (#[trigger] buf[i]).cursor < (#[trigger] buf[j]).cursor
    &&& forall|i: int| 0 <= i < buf.len() ==> (#[trigger] buf[i]).cursor < next
}

/// Characters of an optional string slice.
pub open spec fn opt_str(o: Option<&str>) -> Option<Seq<char>> {
    match o {
        Some(s) => Some(s@),
        None => None,
    }
}

impl EventCache {
    /// Events held, oldest first.
    pub closed spec fn events(&self) -> Seq<CachedEvent> {
        self.buffer@
    }

    /// Cursor the next event gets.
    pub closed spec fn next_cursor_spec(&self) -> u64 {
        self.next_cursor
    }

    /// Most recently assigned cursor (0 before any event).
    pub closed spec fn latest_spec(&self) -> u64 {
        self.latest
    }

    /// Most events held.
    pub closed spec fn capacity_spec(&self) -> nat {
        self.capacity as nat
    }

    /// Creates an empty cache holding at most `capacity` events; cursors
    /// start at 1.
    pub fn new(capacity: usize) -> (c: EventCache)
        ensures
            c.events().len() == 0,
            c.next_cursor_spec() == 1,
            c.latest_spec() == 0,
            c.capacity_spec() == capacity,
    {
        EventCache { capacity, next_cursor: 1, latest: 0, buffer: Vec::new() }
    }

    /// Stores an event under the next cursor and returns that cursor; the
    /// oldest events are dropped beyond capacity. When the cursor space is
    /// exhausted the cache is cleared first and cursors start again at 1.
    pub fn push(
        &mut self,
        tenant_id: String,
        device_id: Option<String>,
        event_type: String,
        json: String,
    ) -> (cursor: u64)
        requires
            old(self).events().len() <= old(self).capacity_spec(),
        ensures
            cursor == old(self).next_cursor_spec(),
            final(self).latest_spec() == cursor,
            final(self).capacity_spec() == old(self).capacity_spec(),
            final(self).next_cursor_spec() == if cursor == u64::MAX {
                1
            } else {
                (cursor + 1) as u64
            },
            ({
                let e = CachedEvent { cursor, tenant_id, device_id, event_type, json };
                let kept = if cursor == u64::MAX {
                    Seq::<CachedEvent>::empty()
                } else {
                    old(self).events()
                }.push(e);
                let cap = old(self).capacity_spec();
                final(self).events() == if kept.len() > cap {
                    kept.skip(kept.len() - cap)
                } else {
                    kept
                }
            }),
            final(self).events().len() <= final(self).capacity_spec(),
    {
        let cursor = self.next_cursor;
        let new_cursor = match cursor.checked_add(1) {
            Some(c) => c,
            None => {
                self.buffer.clear();
                1
            },
        };
        self.next_cursor = new_cursor;
        let ghost kept = self.buffer@.push(
            CachedEvent { cursor, tenant_id, device_id, event_type, json },
        );
        self.buffer.push(CachedEvent { cursor, tenant_id, device_id, event_type, json });
        let ghost over = if kept.len() > self.capacity {
            kept.len() - self.capacity
        } else {
            0
        };
        let mut dropped: usize = 0;
        while self.buffer.len() > self.capacity
            invariant
                self.buffer@ == kept.skip(dropped as int),
                dropped <= over,
                dropped <= kept.len(),
                self.capacity == old(self).capacity,
                self.next_cursor == new_cursor,
                kept.len() <= old(self).capacity_spec() + 1,
                over == if kept.len() > self.capacity {
                    kept.len() - self.capacity
                } else {
                    0
                },
            decreases self.buffer@.len(),
        {
            self.buffer.remove(0);
            dropped = dropped + 1;
            assert(self.buffer@ =~= kept.skip(dropped as int));
        }
        assert(dropped == over);
        self.latest = cursor;
        cursor
    }

    /// The most recently assigned cursor (0 before any event).
    pub fn latest_cursor(&self) -> (c: u64)
        ensures
            c == self.latest_spec(),
    {
        self.latest
    }

    /// Events with a cursor above `after` that match the filters, oldest
    /// first.
    pub fn events_after(
        &self,
        after: u64,
        tenant_filter: Option<&str>,
        device_filter: Option<&str>,
        type_filter: Option<&str>,
    ) -> (out: Vec<CachedEvent>)
        ensures
            out@.len() == self.events().filter(
                |e: CachedEvent|
                    passes(e, after, opt_str(tenant_filter), opt_str(device_filter), opt_str(type_filter)),
            ).len(),
            forall|i: int|
                0 <= i < out@.len() ==> same_event(
                    #[trigger] out@[i],
                    self.events().filter(
                        |e: CachedEvent|
                            passes(
                                e,
                                after,
                                opt_str(tenant_filter),
                                opt_str(device_filter),
                                opt_str(type_filter),
                            ),
                    )[i],
                ),
    {
        let ghost f = |e: CachedEvent|
            passes(e, after, opt_str(tenant_filter), opt_str(device_filter), opt_str(type_filter));
        let mut out: Vec<CachedEvent> = Vec::new();
        let mut i: usize = 0;
        while i < self.buffer.len()
            invariant
                i <= self.buffer@.len(),
                f == (|e: CachedEvent|
                    passes(e, after, opt_str(tenant_filter), opt_str(device_filter), opt_str(type_filter))),
                out@.len() == self.buffer@.take(i as int).filter(f).len(),
                forall|k: int|
                    0 <= k < out@.len() ==> same_event(
                        #[trigger] out@[k],
                        self.buffer@.take(i as int).filter(f)[k],
                    ),
            decreases self.buffer.len() - i,
        {
            proof {
                reveal(Seq::filter);
                assert(self.buffer@.take(i + 1).drop_last() =~= self.buffer@.take(i as int));
            }
            let e = &self.buffer[i];
            let ok_t = match tenant_filter {
                Some(t) => str_eq(e.tenant_id.as_str(), t),
                None => true,
            };
            let ok_d = match device_filter {
                Some(d) => match &e.device_id {
                    Some(x) => str_eq(x.as_str(), d),
                    None => false,
                },
                None => true,
            };
            let ok_ty = match type_filter {
                Some(t) => str_eq(e.event_type.as_str(), t),
                None => true,
            };
            if e.cursor > after && ok_t && ok_d && ok_ty {
                let ghost o0 = out@;
                out.push(copy_event(e));
                proof {
                    assert forall|k: int| 0 <= k < out@.len() implies same_event(
                        #[trigger] out@[k],
                        self.buffer@.take(i + 1).filter(f)[k],
                    ) by {
                        if k < o0.len() {
                            assert(out@[k] == o0[k]);
                        }
                    }
                }
            }
            i = i + 1;
        }
        assert(self.buffer@.take(i as int) =~= self.buffer@);
        out
    }
}

/// Two events carry the same cursor and text.
pub open spec fn same_event(a: CachedEvent, b: CachedEvent) -> bool {
    &&& a.cursor == b.cursor
    &&& a.tenant_id@ == b.tenant_id@
    &&& match (a.device_id, b.device_id) {
        (Some(x), Some(y)) => x@ == y@,
        (None, None) => true,
        _ => false,
    }
    &&& a.event_type@ == b.event_type@
    &&& a.json@ == b.json@
}

/// A copy of an event with the same cursor and text.
pub fn copy_event(e: &CachedEvent) -> (c: CachedEvent)
    ensures
        same_event(c, *e),
{
    CachedEvent {
        cursor: e.cursor,
        tenant_id: e.tenant_id.clone(),
        device_id: match &e.device_id {
            Some(d) => Some(d.clone()),
            None => None,
        },
        event_type: e.event_type.clone(),
        json: e.json.clone(),
    }
}

/// Cursors handed out before the cursor space wraps keep the cache ordered:
/// pushing onto an ordered cache whose next cursor is below `u64::MAX`
/// leaves it ordered, with the new event last.
pub proof fn law_cursors_increase(
    before: Seq<CachedEvent>,
    next: u64,
    e: CachedEvent,
    cap: nat,
)
    requires
        ordered_below(before, next),
        next < u64::MAX,
        e.cursor == next,
        cap > 0,
    ensures
        ({
            let kept = before.push(e);
            let after = if kept.len() > cap {
                kept.skip(kept.len() - cap)
            } else {
                kept
            };
            ordered_below(after, (next + 1) as u64) && after.last() == e
        }),
{
    let kept = before.push(e);
    assert(ordered_below(kept, (next + 1) as u64)) by {
        assert forall|i: int, j: int| 0 <= i < j < kept.len() implies (#[trigger] kept[i]).cursor
            < (#[trigger] kept[j]).cursor by {
            if j == before.len() {
                assert(kept[i] == before[i]);
            }
        }
    }
    if kept.len() > cap {
        let after = kept.skip(kept.len() - cap);
        assert forall|i: int, j: int| 0 <= i < j < after.len() implies (#[trigger] after[i]).cursor
            < (#[trigger] after[j]).cursor by {
            assert(after[i] == kept[i + kept.len() - cap]);
            assert(after[j] == kept[j + kept.len() - cap]);
        }
        assert forall|i: int| 0 <= i < after.len() implies (#[trigger] after[i]).cursor < next + 1 by {
            assert(after[i] == kept[i + kept.len() - cap]);
        }
    }
}

} // verus!
