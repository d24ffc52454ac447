//! GB28181 event admission control.
//!
//! Classifies inbound events by traffic class and priority, coalesces
//! redundant keepalive / position events, sheds low-priority work when the
//! sink is overloaded, and dead-letters high/normal-priority events that
//! cannot be admitted at once so they can be redriven later.
use crate::api::metrics::{bump, RequestMetrics};
use crate::gb::events::GbEvent;
use crate::text::{copy_str, push_str, str_eq};
use vstd::prelude::*;

verus! {

/// Most redrive attempts for a dead-lettered event before it is dropped.
pub const MAX_REDRIVE_ATTEMPTS: u32 = 5;

/// Most dead-lettered events redriven in one batch.
pub const REDRIVE_BATCH_SIZE: usize = 64;

/// Interval between periodic redrive attempts, in milliseconds.
pub const REDRIVE_INTERVAL_MS: u64 = 100;

/// Sizes of the admission machinery for a worker queue of a given depth.
#[derive(Clone, Copy, Debug)]
pub struct AdmissionLimits {
    /// Depth of the worker queue (at least one).
    pub queue_depth: usize,
    /// Backlog at which low-priority events start being shed.
    pub high_watermark: u64,
    /// Backlog at which shedding stops.
    pub low_watermark: u64,
    /// Most coalescing keys tracked at once.
    pub coalescer_capacity: usize,
    /// Most dead-lettered events kept.
    pub dlq_capacity: usize,
    /// Most events redriven per pass.
    pub redrive_batch: usize,
}

/// Derives the admission limits from the configured queue depth: the depth
/// is at least one; shedding starts at four fifths of it (at least one) and
/// stops at half of that; the coalescer tracks as many keys as the queue
/// holds and the dead-letter queue twice as many (saturating), both at
/// least 256; a redrive pass takes at most [`REDRIVE_BATCH_SIZE`] events
/// and no more than the queue holds.
pub fn admission_limits(queue_depth: usize) -> (l: AdmissionLimits)
    requires
        queue_depth <= 0x3fff_ffff_ffff_ffff,
    ensures
        l.queue_depth == if queue_depth == 0 { 1 } else { queue_depth },
        l.high_watermark == if l.queue_depth * 4 / 5 == 0 { 1 } else { l.queue_depth * 4 / 5 },
        l.low_watermark == l.high_watermark / 2,
        l.coalescer_capacity == if l.queue_depth < 256 { 256 } else { l.queue_depth },
        l.dlq_capacity == if l.queue_depth * 2 > usize::MAX {
            usize::MAX as int
        } else if l.queue_depth * 2 < 256 {
            256
        } else {
            l.queue_depth * 2
        },
        l.redrive_batch == if l.queue_depth < REDRIVE_BATCH_SIZE { l.queue_depth } else { REDRIVE_BATCH_SIZE },
{
    let depth = if queue_depth == 0 { 1 } else { queue_depth };
    let scaled = (depth as u64) * 4 / 5;
    let high = if scaled == 0 { 1 } else { scaled };
    let doubled = match depth.checked_mul(2) {
        Some(d) => d,
        None => usize::MAX,
    };
    AdmissionLimits {
        queue_depth: depth,
        high_watermark: high,
        low_watermark: high / 2,
        coalescer_capacity: if depth < 256 { 256 } else { depth },
        dlq_capacity: if doubled < 256 { 256 } else { doubled },
        redrive_batch: if depth < REDRIVE_BATCH_SIZE { depth } else { REDRIVE_BATCH_SIZE },
    }
}

/// Traffic class of an event.
#[derive(Clone, Copy, Debug, PartialEq, Eq, Structural)]
pub enum TrafficClass {
    /// Command responses and media session signalling.
    Command,
    /// Catalog fragments.
    Catalog,
    /// Alarms.
    Alarm,
    /// Keepalives.
    Keepalive,
    /// Mobile positions.
    Position,
    /// Everything else.
    Other,
}

/// Priority of a traffic class.
#[derive(Clone, Copy, Debug, PartialEq, Eq, Structural)]
pub enum Priority {
    /// Never shed; dead-lettered when it cannot be queued.
    High,
    /// Never shed; dead-lettered when it cannot be queued.
    Normal,
    /// Shed under load.
    Low,
}

/// Priority of each class: commands and alarms high, keepalives and
/// positions low, the rest normal.
pub open spec fn priority_of(c: TrafficClass) -> Priority {
    match c {
        TrafficClass::Command | TrafficClass::Alarm => Priority::High,
        TrafficClass::Keepalive | TrafficClass::Position => Priority::Low,
        _ => Priority::Normal,
    }
}

impl TrafficClass {
    /// Priority of the class.
    pub fn priority(&self) -> (p: Priority)
        ensures
            p == priority_of(*self),
    {
        match self {
            TrafficClass::Command | TrafficClass::Alarm => Priority::High,
            TrafficClass::Keepalive | TrafficClass::Position => Priority::Low,
            _ => Priority::Normal,
        }
    }

    /// Keepalives and positions are coalesced per device.
    pub fn is_coalescible(&self) -> (b: bool)
        ensures
            b == (*self == TrafficClass::Keepalive || *self == TrafficClass::Position),
    {
        match self {
            TrafficClass::Keepalive | TrafficClass::Position => true,
            _ => false,
        }
    }
}

/// Traffic class of an event.
pub open spec fn class_of(e: GbEvent) -> TrafficClass {
    match e {
        GbEvent::DeviceControlResponseReceived { .. } | GbEvent::MediaSessionStarted { .. }
        | GbEvent::MediaSessionStopped { .. } | GbEvent::MediaSessionFailed { .. }
        | GbEvent::CascadePlayRequested { .. } | GbEvent::CascadePlayStopped { .. } => TrafficClass::Command,
        GbEvent::CatalogReceived { .. } => TrafficClass::Catalog,
        GbEvent::AlarmReceived { .. } => TrafficClass::Alarm,
        GbEvent::Keepalive { .. } => TrafficClass::Keepalive,
        GbEvent::MobilePositionReceived { .. } => TrafficClass::Position,
        _ => TrafficClass::Other,
    }
}

/// The `tenant:device:class` key under which keepalives and positions are
/// coalesced; none without a tenant or for other events.
pub open spec fn coalescing_key_of(e: GbEvent, tenant: Option<Seq<char>>) -> Option<Seq<char>> {
    match tenant {
        None => None,
        Some(t) => match e {
            GbEvent::Keepalive { device_id, .. } => Some(t + ":"@ + device_id@ + ":keepalive"@),
            GbEvent::MobilePositionReceived { device_id, .. } => Some(
                t + ":"@ + device_id@ + ":position"@,
            ),
            _ => None,
        },
    }
}

fn key_text(tenant: &str, device_id: &String, label: &str) -> (s: String)
    ensures
        s@ == tenant@ + ":"@ + device_id@ + ":"@ + label@,
{
    let mut s = copy_str(tenant);
    push_str(&mut s, ":");
    push_str(&mut s, device_id.as_str());
    push_str(&mut s, ":");
    push_str(&mut s, label);
    s
}

/// Builds the coalescing key of a keepalive or position event.
pub fn coalescing_key(event: &GbEvent, tenant_id: Option<&str>) -> (k: Option<String>)
    ensures
        match k {
            Some(s) => coalescing_key_of(*event, match tenant_id {
                Some(t) => Some(t@),
                None => None,
            }) == Some(s@),
            None => coalescing_key_of(*event, match tenant_id {
                Some(t) => Some(t@),
                None => None,
            }) is None,
        },
{
    let tenant = match tenant_id {
        Some(t) => t,
        None => {
            return None;
        },
    };
    match event {
        GbEvent::Keepalive { device_id, .. } => {
            let s = key_text(tenant, device_id, "keepalive");
            assert(s@ =~= tenant@ + ":"@ + device_id@ + ":keepalive"@) by {
                reveal_strlit(":");
                reveal_strlit("keepalive");
                reveal_strlit(":keepalive");
            }
            Some(s)
        },
        GbEvent::MobilePositionReceived { device_id, .. } => {
            let s = key_text(tenant, device_id, "position");
            assert(s@ =~= tenant@ + ":"@ + device_id@ + ":position"@) by {
                reveal_strlit(":");
                reveal_strlit("position");
                reveal_strlit(":position");
            }
            Some(s)
        },
        _ => None,
    }
}

/// Classifies an event into a traffic class and, when the class is
/// coalescible, its coalescing key.
pub fn classify_event(event: &GbEvent, tenant_id: Option<&str>) -> (r: (TrafficClass, Option<String>))
    ensures
        r.0 == class_of(*event),
        match r.1 {
            Some(s) => (r.0 == TrafficClass::Keepalive || r.0 == TrafficClass::Position)
                && coalescing_key_of(*event, match tenant_id {
                Some(t) => Some(t@),
                None => None,
            }) == Some(s@),
            None => !(r.0 == TrafficClass::Keepalive || r.0 == TrafficClass::Position)
                || coalescing_key_of(*event, match tenant_id {
                Some(t) => Some(t@),
                None => None,
            }) is None,
        },
{
    let class = match event {
        GbEvent::DeviceControlResponseReceived { .. } | GbEvent::MediaSessionStarted { .. }
        | GbEvent::MediaSessionStopped { .. } | GbEvent::MediaSessionFailed { .. }
        | GbEvent::CascadePlayRequested { .. } | GbEvent::CascadePlayStopped { .. } => TrafficClass::Command,
        GbEvent::CatalogReceived { .. } => TrafficClass::Catalog,
        GbEvent::AlarmReceived { .. } => TrafficClass::Alarm,
        GbEvent::Keepalive { .. } => TrafficClass::Keepalive,
        GbEvent::MobilePositionReceived { .. } => TrafficClass::Position,
        _ => TrafficClass::Other,
    };
    let key = if class.is_coalescible() {
        coalescing_key(event, tenant_id)
    } else {
        None
    };
    (class, key)
}

/// Keys of the events in flight, for coalescing.
#[derive(Debug)]
pub struct Coalescer {
    keys: Vec<String>,
    capacity: usize,
}

/// Strings viewed as characters.
pub open spec fn keys_view(v: Seq<String>) -> Seq<Seq<char>> {
    v.map_values(|s: String| s@)
}

impl Coalescer {
    /// Keys in flight.
    pub closed spec fn in_flight(&self) -> Seq<Seq<char>> {
        keys_view(self.keys@)
    }

    /// Most keys tracked at once.
    pub closed spec fn capacity_spec(&self) -> nat {
        self.capacity as nat
    }

    /// An empty coalescer tracking at most `capacity` keys.
    pub fn new(capacity: usize) -> (c: Coalescer)
        ensures
            c.in_flight().len() == 0,
            c.capacity_spec() == capacity,
    {
        let c = Coalescer { keys: Vec::new(), capacity };
        assert(c.in_flight() =~= Seq::<Seq<char>>::empty());
        c
    }

    fn position(&self, key: &str) -> (r: Option<usize>)
        ensures
            match r {
                Some(i) => i < self.in_flight().len() && self.in_flight()[i as int] == key@ && forall|
                    j: int,
                | 0 <= j < i ==> self.in_flight()[j] != key@,
                None => !self.in_flight().contains(key@),
            },
    {
        let mut i: usize = 0;
        while i < self.keys.len()
            invariant
                i <= self.keys@.len(),
                forall|j: int| 0 <= j < i ==> (#[trigger] self.keys@[j])@ != key@,
            decreases self.keys.len() - i,
        {
            if str_eq(self.keys[i].as_str(), key) {
                proof {
                    assert forall|j: int| 0 <= j < i implies self.in_flight()[j] != key@ by {
                        assert(self.in_flight()[j] == self.keys@[j]@);
                    }
                }
                return Some(i);
            }
            i = i + 1;
        }
        proof {
            if self.in_flight().contains(key@) {
                let j = choose|j: int| 0 <= j < self.in_flight().len() && self.in_flight()[j] == key@;
                assert(self.keys@[j]@ == key@);
            }
        }
        None
    }

    /// Observes the key of an incoming event: `true` (coalesced) when an
    /// event with the key is already in flight; otherwise the key is tracked
    /// while there is room, and `false` is returned.
    pub fn observe(&mut self, key: String) -> (coalesced: bool)
        ensures
            coalesced == old(self).in_flight().contains(key@),
            final(self).capacity_spec() == old(self).capacity_spec(),
            final(self).in_flight() == if !coalesced && old(self).in_flight().len()
                < old(self).capacity_spec() {
                old(self).in_flight().push(key@)
            } else {
                old(self).in_flight()
            },
    {
        match self.position(key.as_str()) {
            Some(_) => true,
            None => {
                if self.keys.len() < self.capacity {
                    let ghost k = key@;
                    self.keys.push(key);
                    assert(self.in_flight() =~= old(self).in_flight().push(k));
                }
                false
            },
        }
    }

    /// Stops tracking the key, if it is tracked.
    pub fn release(&mut self, key: &str)
        ensures
            final(self).capacity_spec() == old(self).capacity_spec(),
            final(self).in_flight() == match old(self).in_flight().index_of_first(key@) {
                Some(i) => old(self).in_flight().remove(i),
                None => old(self).in_flight(),
            },
    {
        let ghost f0 = self.in_flight();
        match self.position(key) {
            Some(i) => {
                proof {
                    f0.index_of_first_ensures(key@);
                    let j = f0.index_of_first(key@)->0;
                    if j < i {
                        assert(f0[j] != key@);
                    } else if j > i {
                        assert(f0[i as int] == key@);
                    }
                }
                self.keys.remove(i);
                assert(self.in_flight() =~= f0.remove(i as int));
            },
            None => {
                proof {
                    f0.index_of_first_ensures(key@);
                }
            },
        }
    }
}

/// Watermark hysteresis deciding when low-priority work is shed.
#[derive(Clone, Copy, Debug)]
pub struct Backlog {
    /// Shedding starts when the backlog reaches this.
    pub high_watermark: u64,
    /// Shedding stops when the backlog falls to this.
    pub low_watermark: u64,
    /// Whether low-priority work is being shed.
    pub shedding: bool,
}

impl Backlog {
    /// Observes the backlog: shedding starts at the high watermark and stops
    /// at the low one; in between it stays as it was.
    pub fn observe(&mut self, pending: u64)
        ensures
            final(self).high_watermark == old(self).high_watermark,
            final(self).low_watermark == old(self).low_watermark,
            final(self).shedding == if pending >= old(self).high_watermark {
                true
            } else if pending <= old(self).low_watermark {
                false
            } else {
                old(self).shedding
            },
    {
        if pending >= self.high_watermark {
            self.shedding = true;
        } else if pending <= self.low_watermark {
            self.shedding = false;
        }
    }
}

/// An event waiting in the dead-letter queue.
#[derive(Clone, Debug)]
pub struct DeadLetter {
    /// The event.
    pub event: GbEvent,
    /// Redrive attempts made so far.
    pub attempts: u32,
    /// When the event was dead-lettered, in milliseconds.
    pub at_ms: i64,
}

/// Bounded FIFO of dead-lettered events; when full, the oldest is dropped.
#[derive(Debug)]
pub struct DeadLetterQueue {
    entries: Vec<DeadLetter>,
    capacity: usize,
    dropped: u64,
}

impl DeadLetterQueue {
    /// Entries, oldest first.
    pub closed spec fn entries_spec(&self) -> Seq<DeadLetter> {
        self.entries@
    }

    /// Capacity.
    pub closed spec fn capacity_spec(&self) -> nat {
        self.capacity as nat
    }

    /// Entries dropped on overflow so far.
    pub closed spec fn dropped_spec(&self) -> u64 {
        self.dropped
    }

    /// Within capacity.
    pub closed spec fn wf(&self) -> bool {
        self.capacity > 0 && self.entries@.len() <= self.capacity
    }

    /// An empty queue holding at most `capacity` entries.
    pub fn new(capacity: usize) -> (q: DeadLetterQueue)
        requires
            capacity > 0,
        ensures
            q.wf(),
            q.entries_spec().len() == 0,
            q.capacity_spec() == capacity,
            q.dropped_spec() == 0,
    {
        DeadLetterQueue { entries: Vec::new(), capacity, dropped: 0 }
    }

    /// Number of entries.
    pub fn len(&self) -> (n: usize)
        ensures
            n == self.entries_spec().len(),
    {
        self.entries.len()
    }

    /// Appends an entry; when the queue is full its oldest entry is dropped
    /// first. Returns whether an entry was dropped.
    pub fn push_entry(&mut self, entry: DeadLetter) -> (dropped_one: bool)
        requires
            old(self).wf(),
        ensures
            final(self).wf(),
            final(self).capacity_spec() == old(self).capacity_spec(),
            dropped_one == (old(self).entries_spec().len() >= old(self).capacity_spec()),
            final(self).entries_spec() == if dropped_one {
                old(self).entries_spec().drop_first().push(entry)
            } else {
                old(self).entries_spec().push(entry)
            },
            final(self).dropped_spec() == if dropped_one {
                bump(old(self).dropped_spec())
            } else {
                old(self).dropped_spec()
            },
    {
        let full = self.entries.len() >= self.capacity;
        if full {
            self.entries.remove(0);
            self.dropped = self.dropped.wrapping_add(1);
        }
        self.entries.push(entry);
        full
    }

    /// Takes up to `n` of the oldest entries, oldest first.
    pub fn drain(&mut self, n: usize) -> (out: Vec<DeadLetter>)
        requires
            old(self).wf(),
        ensures
            final(self).wf(),
            final(self).capacity_spec() == old(self).capacity_spec(),
            final(self).dropped_spec() == old(self).dropped_spec(),
            ({
                let k = if n < old(self).entries_spec().len() {
                    n as int
                } else {
                    old(self).entries_spec().len() as int
                };
                &&& out@ == old(self).entries_spec().take(k)
                &&& final(self).entries_spec() == old(self).entries_spec().skip(k)
            }),
    {
        let k = if n < self.entries.len() {
            n
        } else {
            self.entries.len()
        };
        let mut out = self.entries.split_off(k);
        std::mem::swap(&mut out, &mut self.entries);
        out
    }
}

/// An event together with its classification.
#[derive(Clone, Debug)]
pub struct Tagged {
    /// The event.
    pub event: GbEvent,
    /// Its traffic class.
    pub class: TrafficClass,
    /// Its coalescing key, when coalescible.
    pub key: Option<String>,
}

/// What admission decided for an incoming event.
#[derive(Clone, Debug)]
pub enum Admission {
    /// An event with the same key is in flight: this one is folded into it.
    Coalesced,
    /// Low-priority work shed under load.
    Shed,
    /// To be handed to the worker queue; report the outcome with
    /// [`AdmissionState::send_result`].
    Send(Tagged),
}

/// Admission state shared by the sink and the worker.
#[derive(Debug)]
pub struct AdmissionState {
    /// Keys of coalescible events in flight.
    pub coalescer: Coalescer,
    /// Load shedding hysteresis.
    pub backlog: Backlog,
    /// Events waiting to be redriven.
    pub dlq: DeadLetterQueue,
    /// Approximate number of events in the worker queue.
    pub pending: usize,
    /// Counters.
    pub metrics: RequestMetrics,
    /// Rendered tenant identifier, when a default tenant is configured.
    pub tenant_id: Option<String>,
}

/// The rendered tenant, as characters.
pub open spec fn tenant_view(t: Option<String>) -> Option<Seq<char>> {
    match t {
        Some(s) => Some(s@),
        None => None,
    }
}

/// Key as characters.
pub open spec fn key_view(k: Option<String>) -> Option<Seq<char>> {
    match k {
        Some(s) => Some(s@),
        None => None,
    }
}

/// A counter after `n` more events, wrapping around.
pub open spec fn add_wrapping(c: u64, n: nat) -> u64 {
    ((c + n) % 0x1_0000_0000_0000_0000) as u64
}

proof fn lemma_add_wrapping_step(c: u64, n: nat)
    ensures
        bump(add_wrapping(c, n)) == add_wrapping(c, n + 1),
{
    let m = 0x1_0000_0000_0000_0000int;
    let a = (c + n) % m;
    assert(0 <= a < m);
    assert((c + n + 1) % m == if a + 1 == m { 0 } else { a + 1 }) by (nonlinear_arith)
        requires
            a == (c + n) % m,
            m > 0,
            0 <= a < m,
            c >= 0,
    {
        vstd::arithmetic::div_mod::lemma_add_mod_noop(c + n, 1, m);
    }
}

/// `in_flight` without the first occurrence of `key`, if any.
pub open spec fn released(in_flight: Seq<Seq<char>>, key: Option<Seq<char>>) -> Seq<Seq<char>> {
    match key {
        Some(k) => match in_flight.index_of_first(k) {
            Some(i) => in_flight.remove(i),
            None => in_flight,
        },
        None => in_flight,
    }
}

impl AdmissionState {
    fn release_key(&mut self, key: &Option<String>)
        ensures
            final(self).coalescer.in_flight() == released(old(self).coalescer.in_flight(), key_view(*key)),
            final(self).coalescer.capacity_spec() == old(self).coalescer.capacity_spec(),
            final(self).backlog == old(self).backlog,
            final(self).dlq == old(self).dlq,
            final(self).pending == old(self).pending,
            final(self).metrics == old(self).metrics,
            final(self).tenant_id == old(self).tenant_id,
    {
        if let Some(k) = key {
            self.coalescer.release(k.as_str());
        }
    }

    /// Applies admission control to an incoming event: coalescible events
    /// whose key is in flight are coalesced; low-priority events are shed
    /// while the backlog sheds; anything else is to be queued.
    pub fn admit_event(&mut self, event: GbEvent) -> (a: Admission)
        ensures
            final(self).tenant_id == old(self).tenant_id,
            final(self).pending == old(self).pending,
            final(self).dlq == old(self).dlq,
            ({
                let class = class_of(event);
                let key = if class == TrafficClass::Keepalive || class == TrafficClass::Position {
                    coalescing_key_of(event, tenant_view(old(self).tenant_id))
                } else {
                    None
                };
                let shedding = if old(self).pending >= old(self).backlog.high_watermark {
                    true
                } else if old(self).pending <= old(self).backlog.low_watermark {
                    false
                } else {
                    old(self).backlog.shedding
                };
                match key {
                    Some(k) if old(self).coalescer.in_flight().contains(k) => {
                        &&& a is Coalesced
                        &&& final(self).metrics.gb28181_events_coalesced_total == bump(
                            old(self).metrics.gb28181_events_coalesced_total,
                        )
                        &&& final(self).coalescer.in_flight() == old(self).coalescer.in_flight()
                    },
                    _ => {
                        let tracked_keys = match key {
                            Some(k) => if old(self).coalescer.in_flight().len()
                                < old(self).coalescer.capacity_spec() {
                                old(self).coalescer.in_flight().push(k)
                            } else {
                                old(self).coalescer.in_flight()
                            },
                            None => old(self).coalescer.in_flight(),
                        };
                        &&& final(self).backlog.shedding == shedding
                        &&& if shedding && priority_of(class) == Priority::Low {
                            &&& a is Shed
                            &&& final(self).coalescer.in_flight() == released(tracked_keys, key)
                            &&& final(self).metrics.gb28181_events_shed_total == bump(
                                old(self).metrics.gb28181_events_shed_total,
                            )
                            &&& final(self).metrics.gb28181_events_dropped_total == bump(
                                old(self).metrics.gb28181_events_dropped_total,
                            )
                        } else {
                            &&& a matches Admission::Send(t) && t.event == event && t.class == class
                                && key_view(t.key) == key
                            &&& final(self).coalescer.in_flight() == tracked_keys
                            &&& final(self).metrics == old(self).metrics
                        }
                    },
                }
            }),
    {
        let (class, key) = match &self.tenant_id {
            Some(t) => classify_event(&event, Some(t.as_str())),
            None => classify_event(&event, None),
        };
        if let Some(k) = &key {
            if self.coalescer.observe(copy_str(k.as_str())) {
                self.metrics.record_gb28181_event_coalesced();
                return Admission::Coalesced;
            }
        }
        self.backlog.observe(self.pending as u64);
        if self.backlog.shedding && class.priority() == Priority::Low {
            self.release_key(&key);
            self.metrics.record_gb28181_event_shed();
            self.metrics.record_gb28181_event_dropped();
            return Admission::Shed;
        }
        Admission::Send(Tagged { event, class, key })
    }

    /// Accounts for the attempt to queue an admitted event. A queued event
    /// is counted as admitted; otherwise its key is released and it is shed
    /// when low-priority, or dead-lettered at `now_ms`.
    pub fn send_result(&mut self, tagged: Tagged, sent: bool, now_ms: i64)
        requires
            old(self).dlq.wf(),
            old(self).pending < usize::MAX,
        ensures
            final(self).dlq.wf(),
            final(self).tenant_id == old(self).tenant_id,
            final(self).backlog == old(self).backlog,
            sent ==> {
                &&& final(self).pending == old(self).pending + 1
                &&& final(self).metrics.gb28181_events_admitted_total == bump(
                    old(self).metrics.gb28181_events_admitted_total,
                )
                &&& final(self).coalescer.in_flight() == old(self).coalescer.in_flight()
                &&& final(self).dlq == old(self).dlq
            },
            !sent ==> {
                &&& final(self).pending == old(self).pending
                &&& final(self).coalescer.in_flight() == released(
                    old(self).coalescer.in_flight(),
                    key_view(tagged.key),
                )
                &&& if priority_of(tagged.class) == Priority::Low {
                    &&& final(self).metrics.gb28181_events_shed_total == bump(
                        old(self).metrics.gb28181_events_shed_total,
                    )
                    &&& final(self).metrics.gb28181_events_dropped_total == bump(
                        old(self).metrics.gb28181_events_dropped_total,
                    )
                    &&& final(self).dlq.entries_spec() == old(self).dlq.entries_spec()
                } else {
                    let overflow = old(self).dlq.entries_spec().len()
                        >= old(self).dlq.capacity_spec();
                    &&& final(self).metrics.gb28181_events_dead_lettered_total == bump(
                        old(self).metrics.gb28181_events_dead_lettered_total,
                    )
                    &&& final(self).metrics.gb28181_events_dropped_total == if overflow {
                        bump(old(self).metrics.gb28181_events_dropped_total)
                    } else {
                        old(self).metrics.gb28181_events_dropped_total
                    }
                    &&& final(self).dlq.entries_spec() == (if overflow {
                        old(self).dlq.entries_spec().drop_first()
                    } else {
                        old(self).dlq.entries_spec()
                    }).push(DeadLetter { event: tagged.event, attempts: 0, at_ms: now_ms })
                }
            },
    {
        if sent {
            self.pending = self.pending + 1;
            self.metrics.record_gb28181_event_admitted();
            return;
        }
        self.release_key(&tagged.key);
        if tagged.class.priority() == Priority::Low {
            self.metrics.record_gb28181_event_shed();
            self.metrics.record_gb28181_event_dropped();
        } else {
            let overflow = self.dlq.push_entry(
                DeadLetter { event: tagged.event, attempts: 0, at_ms: now_ms },
            );
            self.metrics.record_gb28181_event_dead_lettered();
            if overflow {
                self.metrics.record_gb28181_event_dropped();
            }
        }
    }

    /// Takes up to `batch_size` dead-lettered events for another attempt.
    /// Events whose redrive budget is spent are dropped (their keys
    /// released); the others come back classified, with one more attempt
    /// counted, to be queued and reported with [`Self::redrive_result`].
    pub fn redrive_batch(&mut self, batch_size: usize) -> (out: Vec<(Tagged, u32, i64)>)
        requires
            old(self).dlq.wf(),
        ensures
            final(self).dlq.wf(),
            final(self).pending == old(self).pending,
            final(self).backlog == old(self).backlog,
            final(self).tenant_id == old(self).tenant_id,
            ({
                let n = old(self).dlq.entries_spec().len();
                let k = if batch_size < n {
                    batch_size as int
                } else {
                    n as int
                };
                let drained = old(self).dlq.entries_spec().take(k);
                let spent = drained.filter(|d: DeadLetter| d.attempts >= MAX_REDRIVE_ATTEMPTS);
                let retried = drained.filter(|d: DeadLetter| d.attempts < MAX_REDRIVE_ATTEMPTS);
                &&& final(self).dlq.entries_spec() == old(self).dlq.entries_spec().skip(k)
                &&& out@.len() == retried.len()
                &&& forall|j: int|
                    0 <= j < retried.len() ==> {
                        let (t, a, at) = #[trigger] out@[j];
                        &&& t.event == retried[j].event
                        &&& t.class == class_of(retried[j].event)
                        &&& a == retried[j].attempts + 1
                        &&& at == retried[j].at_ms
                    }
                &&& final(self).metrics.gb28181_events_redrive_exhausted_total == add_wrapping(
                    old(self).metrics.gb28181_events_redrive_exhausted_total,
                    spent.len(),
                )
                &&& final(self).metrics.gb28181_events_dropped_total == add_wrapping(
                    old(self).metrics.gb28181_events_dropped_total,
                    spent.len(),
                )
            }),
    {
        let entries = self.dlq.drain(batch_size);
        let ghost drained = entries@;
        let ghost m0 = self.metrics;
        let mut out: Vec<(Tagged, u32, i64)> = Vec::new();
        let mut entries = entries;
        let mut i: usize = 0;
        let ghost n0 = drained.len();
        while entries.len() > 0
            invariant
                entries@ == drained.skip(i as int),
                i <= n0,
                n0 == drained.len(),
                self.dlq.wf(),
                out@.len() == drained.take(i as int).filter(
                    |d: DeadLetter| d.attempts < MAX_REDRIVE_ATTEMPTS,
                ).len(),
                forall|j: int|
                    0 <= j < out@.len() ==> {
                        let r = drained.take(i as int).filter(
                            |d: DeadLetter| d.attempts < MAX_REDRIVE_ATTEMPTS,
                        );
                        let (t, a, at) = #[trigger] out@[j];
                        &&& t.event == r[j].event
                        &&& t.class == class_of(r[j].event)
                        &&& a == r[j].attempts + 1
                        &&& at == r[j].at_ms
                    },
                self.metrics.gb28181_events_redrive_exhausted_total == add_wrapping(
                    m0.gb28181_events_redrive_exhausted_total,
                    drained.take(i as int).filter(
                        |d: DeadLetter| d.attempts >= MAX_REDRIVE_ATTEMPTS,
                    ).len(),
                ),
                self.metrics.gb28181_events_dropped_total == add_wrapping(
                    m0.gb28181_events_dropped_total,
                    drained.take(i as int).filter(
                        |d: DeadLetter| d.attempts >= MAX_REDRIVE_ATTEMPTS,
                    ).len(),
                ),
                self.pending == old(self).pending,
                self.backlog == old(self).backlog,
                self.tenant_id == old(self).tenant_id,
                self.dlq.entries_spec() == old(self).dlq.entries_spec().skip(
                    if batch_size < old(self).dlq.entries_spec().len() {
                        batch_size as int
                    } else {
                        old(self).dlq.entries_spec().len() as int
                    },
                ),
                drained == old(self).dlq.entries_spec().take(
                    if batch_size < old(self).dlq.entries_spec().len() {
                        batch_size as int
                    } else {
                        old(self).dlq.entries_spec().len() as int
                    },
                ),
            decreases entries@.len(),
        {
            proof {
                reveal(Seq::filter);
                assert(drained.take(i + 1).drop_last() =~= drained.take(i as int));
                assert(drained.take(i + 1).last() == drained[i as int]);
            }
            let ghost e0 = entries@;
            let entry = entries.remove(0);
            assert(entry == drained[i as int]);
            assert(entries@ =~= drained.skip(i + 1));
            let (class, key) = match &self.tenant_id {
                Some(t) => classify_event(&entry.event, Some(t.as_str())),
                None => classify_event(&entry.event, None),
            };
            if entry.attempts >= MAX_REDRIVE_ATTEMPTS {
                self.release_key(&key);
                self.metrics.record_gb28181_event_redrive_exhausted();
                self.metrics.record_gb28181_event_dropped();
                proof {
                    lemma_add_wrapping_step(m0.gb28181_events_redrive_exhausted_total, drained.take(i as int).filter(
                        |d: DeadLetter| d.attempts >= MAX_REDRIVE_ATTEMPTS,
                    ).len());
                    lemma_add_wrapping_step(m0.gb28181_events_dropped_total, drained.take(i as int).filter(
                        |d: DeadLetter| d.attempts >= MAX_REDRIVE_ATTEMPTS,
                    ).len());
                }
            } else {
                let ghost o0 = out@;
                out.push((Tagged { event: entry.event, class, key }, entry.attempts + 1, entry.at_ms));
                proof {
                    let r = drained.take(i + 1).filter(|d: DeadLetter| d.attempts < MAX_REDRIVE_ATTEMPTS);
                    assert forall|j: int| 0 <= j < out@.len() implies {
                        let (t, a, at) = #[trigger] out@[j];
                        &&& t.event == r[j].event
                        &&& t.class == class_of(r[j].event)
                        &&& a == r[j].attempts + 1
                        &&& at == r[j].at_ms
                    } by {
                        if j < o0.len() {
                            assert(out@[j] == o0[j]);
                        }
                    }
                }
            }
            i = i + 1;
        }
        assert(drained.take(i as int) =~= drained);
        out
    }

    /// Accounts for the attempt to queue a redriven event: a queued event is
    /// counted as admitted and redriven; otherwise it is dropped once its
    /// budget is spent, and dead-lettered again (without counting) before.
    pub fn redrive_result(&mut self, tagged: Tagged, attempts: u32, at_ms: i64, sent: bool)
        requires
            old(self).dlq.wf(),
            old(self).pending < usize::MAX,
        ensures
            final(self).dlq.wf(),
            final(self).tenant_id == old(self).tenant_id,
            final(self).backlog == old(self).backlog,
            sent ==> {
                &&& final(self).pending == old(self).pending + 1
                &&& final(self).metrics == (RequestMetrics {
                    gb28181_events_admitted_total: bump(old(self).metrics.gb28181_events_admitted_total),
                    gb28181_events_redriven_total: bump(old(self).metrics.gb28181_events_redriven_total),
                    ..old(self).metrics
                })
                &&& final(self).dlq == old(self).dlq
                &&& final(self).coalescer.in_flight() == old(self).coalescer.in_flight()
            },
            !sent && attempts >= MAX_REDRIVE_ATTEMPTS ==> {
                &&& final(self).pending == old(self).pending
                &&& final(self).metrics == (RequestMetrics {
                    gb28181_events_redrive_exhausted_total: bump(
                        old(self).metrics.gb28181_events_redrive_exhausted_total,
                    ),
                    gb28181_events_dropped_total: bump(old(self).metrics.gb28181_events_dropped_total),
                    ..old(self).metrics
                })
                &&& final(self).dlq == old(self).dlq
                &&& final(self).coalescer.in_flight() == released(
                    old(self).coalescer.in_flight(),
                    key_view(tagged.key),
                )
            },
            !sent && attempts < MAX_REDRIVE_ATTEMPTS ==> {
                let overflow = old(self).dlq.entries_spec().len() >= old(self).dlq.capacity_spec();
                &&& final(self).pending == old(self).pending
                &&& final(self).metrics == old(self).metrics
                &&& final(self).dlq.entries_spec() == (if overflow {
                    old(self).dlq.entries_spec().drop_first()
                } else {
                    old(self).dlq.entries_spec()
                }).push(DeadLetter { event: tagged.event, attempts, at_ms })
                &&& final(self).coalescer.in_flight() == old(self).coalescer.in_flight()
            },
    {
        if sent {
            self.pending = self.pending + 1;
            self.metrics.record_gb28181_event_admitted();
            self.metrics.record_gb28181_event_redriven();
        } else if attempts >= MAX_REDRIVE_ATTEMPTS {
            self.release_key(&tagged.key);
            self.metrics.record_gb28181_event_redrive_exhausted();
            self.metrics.record_gb28181_event_dropped();
        } else {
            let _ = self.dlq.push_entry(DeadLetter { event: tagged.event, attempts, at_ms });
        }
    }

    /// The worker took an event off its queue and processed it: the backlog
    /// shrinks and the event's key is released.
    pub fn finished(&mut self, key: &Option<String>)
        ensures
            final(self).pending == if old(self).pending > 0 {
                old(self).pending - 1
            } else {
                0
            },
            final(self).coalescer.in_flight() == released(old(self).coalescer.in_flight(), key_view(*key)),
            final(self).dlq == old(self).dlq,
            final(self).metrics == old(self).metrics,
            final(self).tenant_id == old(self).tenant_id,
    {
        self.pending = self.pending.saturating_sub(1);
        self.release_key(key);
    }
}

/// Coalescing tracks each key at most once: observing keys (and releasing
/// them) never puts the same key in flight twice.
pub proof fn law_in_flight_keys_distinct(in_flight: Seq<Seq<char>>, key: Seq<char>, capacity: nat)
    requires
        in_flight.no_duplicates(),
    ensures
        (if !in_flight.contains(key) && in_flight.len() < capacity {
            in_flight.push(key)
        } else {
            in_flight
        }).no_duplicates(),
        released(in_flight, Some(key)).no_duplicates(),
{
    if !in_flight.contains(key) && in_flight.len() < capacity {
        let n = in_flight.push(key);
        assert forall|i: int, j: int| 0 <= i < n.len() && 0 <= j < n.len() && i != j implies n[i] != n[j] by {
            if i < in_flight.len() && j < in_flight.len() {
                assert(n[i] == in_flight[i] && n[j] == in_flight[j]);
            } else if i < in_flight.len() {
                assert(n[i] == in_flight[i]);
            } else {
                assert(n[j] == in_flight[j]);
            }
        }
    }
    match in_flight.index_of_first(key) {
        Some(i) => {
            in_flight.index_of_first_ensures(key);
            let r = in_flight.remove(i);
            assert forall|a: int, b: int| 0 <= a < r.len() && 0 <= b < r.len() && a != b implies r[a] != r[b] by {
                let sa = if a < i { a } else { a + 1 };
                let sb = if b < i { b } else { b + 1 };
                assert(r[a] == in_flight[sa] && r[b] == in_flight[sb]);
            }
        },
        None => {},
    }
}

} // verus!
