//! Request and GB28181 event counters, exported in Prometheus text form.
use crate::text::{decimal, push_str, to_decimal};
use vstd::prelude::*;

verus! {

/// Upper bounds of the response-duration histogram buckets, in nanoseconds
/// (5 ms, 10 ms, 25 ms, 50 ms, 100 ms, 250 ms, 500 ms, 1 s, 2.5 s, 5 s, 10 s);
/// a last bucket counts every observation.
pub open spec fn bucket_bounds_ns() -> Seq<u128> {
    seq![
        5_000_000u128,
        10_000_000,
        25_000_000,
        50_000_000,
        100_000_000,
        250_000_000,
        500_000_000,
        1_000_000_000,
        2_500_000_000,
        5_000_000_000,
        10_000_000_000,
    ]
}

fn bucket_bound_ns(i: usize) -> (b: u128)
    requires
        i < 11,
    ensures
        b == bucket_bounds_ns()[i as int],
{
    let bounds: [u128; 11] = [
        5_000_000,
        10_000_000,
        25_000_000,
        50_000_000,
        100_000_000,
        250_000_000,
        500_000_000,
        1_000_000_000,
        2_500_000_000,
        5_000_000_000,
        10_000_000_000,
    ];
    assert(bounds@ =~= bucket_bounds_ns());
    bounds[i]
}

/// A counter after one more event (counters wrap around as atomics do).
pub open spec fn bump(c: u64) -> u64 {
    if c == u64::MAX {
        0
    } else {
        (c + 1) as u64
    }
}

/// A counter after `k` more events, counted one after another.
pub open spec fn bumped(c: u64, k: nat) -> u64
    decreases k,
{
    if k == 0 {
        c
    } else {
        bump(bumped(c, (k - 1) as nat))
    }
}

/// Counting `k` events raises a counter by `k`, modulo 2^64: no increment
/// is lost.
pub proof fn law_counts_add_up(n: u64, k: nat)
    ensures
        bumped(n, k) as int == (n as int + k as int) % 0x1_0000_0000_0000_0000,
    decreases k,
{
    if k > 0 {
        law_counts_add_up(n, (k - 1) as nat);
        let x: int = n as int + k as int - 1;
        let a: int = bumped(n, (k - 1) as nat) as int;
        assert(a == x % 0x1_0000_0000_0000_0000);
        assert((x + 1) % 0x1_0000_0000_0000_0000 == if a == 0xffff_ffff_ffff_ffff {
            0
        } else {
            a + 1
        }) by (nonlinear_arith)
            requires
                a == x % 0x1_0000_0000_0000_0000,
                0 <= x,
        ;
    }
}

/// Shared request metrics.
#[derive(Debug)]
pub struct RequestMetrics {
    /// Requests seen.
    pub requests_total: u64,
    /// Responses with a server error.
    pub responses_failed: u64,
    /// Responses with a 2xx status.
    pub responses_2xx: u64,
    /// Responses with a 4xx status.
    pub responses_4xx: u64,
    /// Responses with a 5xx status.
    pub responses_5xx: u64,
    /// GB28181 events dropped.
    pub gb28181_events_dropped_total: u64,
    /// GB28181 events admitted to processing.
    pub gb28181_events_admitted_total: u64,
    /// GB28181 events coalesced into one already queued.
    pub gb28181_events_coalesced_total: u64,
    /// GB28181 events shed under load.
    pub gb28181_events_shed_total: u64,
    /// GB28181 events dead-lettered.
    pub gb28181_events_dead_lettered_total: u64,
    /// GB28181 events redriven from the dead-letter queue.
    pub gb28181_events_redriven_total: u64,
    /// GB28181 events dropped after their redrive budget ran out.
    pub gb28181_events_redrive_exhausted_total: u64,
    /// Sum of the observed response durations, in nanoseconds (wrapping).
    pub response_duration_sum_ns: u64,
    /// Cumulative histogram counts: one per bound, then the total.
    pub response_duration_buckets: Vec<u64>,
}

impl Default for RequestMetrics {
    fn default() -> (m: RequestMetrics)
        ensures
            m.wf(),
            m.requests_total == 0,
            m.responses_failed == 0,
            m.responses_2xx == 0,
            m.responses_4xx == 0,
            m.responses_5xx == 0,
            m.gb28181_events_dropped_total == 0,
            m.gb28181_events_admitted_total == 0,
            m.gb28181_events_coalesced_total == 0,
            m.gb28181_events_shed_total == 0,
            m.gb28181_events_dead_lettered_total == 0,
            m.gb28181_events_redriven_total == 0,
            m.gb28181_events_redrive_exhausted_total == 0,
            m.duration_sum() == 0,
            forall|i: int| 0 <= i < 12 ==> #[trigger] m.buckets()[i] == 0,
    {
        let m = RequestMetrics {
            requests_total: 0,
            responses_failed: 0,
            responses_2xx: 0,
            responses_4xx: 0,
            responses_5xx: 0,
            gb28181_events_dropped_total: 0,
            gb28181_events_admitted_total: 0,
            gb28181_events_coalesced_total: 0,
            gb28181_events_shed_total: 0,
            gb28181_events_dead_lettered_total: 0,
            gb28181_events_redriven_total: 0,
            gb28181_events_redrive_exhausted_total: 0,
            response_duration_sum_ns: 0,
            response_duration_buckets: vec![0, 0, 0, 0, 0, 0, 0, 0, 0, 0, 0, 0],
        };
        m
    }
}

impl RequestMetrics {
    /// Sum of the observed response durations, in nanoseconds (wrapping).
    pub open spec fn duration_sum(&self) -> u64 {
        self.response_duration_sum_ns
    }

    /// Cumulative histogram counts: one per bound, then the total.
    pub open spec fn buckets(&self) -> Seq<u64> {
        self.response_duration_buckets@
    }

    /// The histogram has its twelve buckets.
    pub open spec fn wf(&self) -> bool {
        self.response_duration_buckets@.len() == 12
    }

    /// Counts a request.
    pub fn record_request(&mut self)
        ensures
            *final(self) == (RequestMetrics { requests_total: bump(old(self).requests_total), ..*old(self) }),
    {
        self.requests_total = self.requests_total.wrapping_add(1);
    }

    /// Counts a response by status class: 5xx also counts as failed;
    /// statuses outside 2xx, 4xx and 5xx are not counted.
    pub fn record_response(&mut self, status: u16)
        ensures
            final(self).responses_5xx == if 500 <= status <= 599 {
                bump(old(self).responses_5xx)
            } else {
                old(self).responses_5xx
            },
            final(self).responses_failed == if 500 <= status <= 599 {
                bump(old(self).responses_failed)
            } else {
                old(self).responses_failed
            },
            final(self).responses_4xx == if 400 <= status <= 499 {
                bump(old(self).responses_4xx)
            } else {
                old(self).responses_4xx
            },
            final(self).responses_2xx == if 200 <= status <= 299 {
                bump(old(self).responses_2xx)
            } else {
                old(self).responses_2xx
            },
            *final(self) == (RequestMetrics {
                responses_5xx: final(self).responses_5xx,
                responses_failed: final(self).responses_failed,
                responses_4xx: final(self).responses_4xx,
                responses_2xx: final(self).responses_2xx,
                ..*old(self)
            }),
    {
        if 500 <= status && status <= 599 {
            self.responses_5xx = self.responses_5xx.wrapping_add(1);
            self.responses_failed = self.responses_failed.wrapping_add(1);
        } else if 400 <= status && status <= 499 {
            self.responses_4xx = self.responses_4xx.wrapping_add(1);
        } else if 200 <= status && status <= 299 {
            self.responses_2xx = self.responses_2xx.wrapping_add(1);
        }
    }

    /// Counts a dropped GB28181 event.
    pub fn record_gb28181_event_dropped(&mut self)
        ensures
            *final(self) == (RequestMetrics { gb28181_events_dropped_total: bump(old(self).gb28181_events_dropped_total), ..*old(self) }),
    {
        self.gb28181_events_dropped_total = self.gb28181_events_dropped_total.wrapping_add(1);
    }

    /// Counts an admitted GB28181 event.
    pub fn record_gb28181_event_admitted(&mut self)
        ensures
            *final(self) == (RequestMetrics { gb28181_events_admitted_total: bump(old(self).gb28181_events_admitted_total), ..*old(self) }),
    {
        self.gb28181_events_admitted_total = self.gb28181_events_admitted_total.wrapping_add(1);
    }

    /// Counts a coalesced GB28181 event.
    pub fn record_gb28181_event_coalesced(&mut self)
        ensures
            *final(self) == (RequestMetrics { gb28181_events_coalesced_total: bump(old(self).gb28181_events_coalesced_total), ..*old(self) }),
    {
        self.gb28181_events_coalesced_total = self.gb28181_events_coalesced_total.wrapping_add(1);
    }

    /// Counts a shed GB28181 event.
    pub fn record_gb28181_event_shed(&mut self)
        ensures
            *final(self) == (RequestMetrics { gb28181_events_shed_total: bump(old(self).gb28181_events_shed_total), ..*old(self) }),
    {
        self.gb28181_events_shed_total = self.gb28181_events_shed_total.wrapping_add(1);
    }

    /// Counts a dead-lettered GB28181 event.
    pub fn record_gb28181_event_dead_lettered(&mut self)
        ensures
            *final(self) == (RequestMetrics { gb28181_events_dead_lettered_total: bump(old(self).gb28181_events_dead_lettered_total), ..*old(self) }),
    {
        self.gb28181_events_dead_lettered_total = self.gb28181_events_dead_lettered_total.wrapping_add(1);
    }

    /// Counts a redriven GB28181 event.
    pub fn record_gb28181_event_redriven(&mut self)
        ensures
            *final(self) == (RequestMetrics { gb28181_events_redriven_total: bump(old(self).gb28181_events_redriven_total), ..*old(self) }),
    {
        self.gb28181_events_redriven_total = self.gb28181_events_redriven_total.wrapping_add(1);
    }

    /// Counts a GB28181 event whose redrive budget ran out.
    pub fn record_gb28181_event_redrive_exhausted(&mut self)
        ensures
            *final(self) == (RequestMetrics { gb28181_events_redrive_exhausted_total: bump(old(self).gb28181_events_redrive_exhausted_total), ..*old(self) }),
    {
        self.gb28181_events_redrive_exhausted_total = self.gb28181_events_redrive_exhausted_total.wrapping_add(1);
    }

    /// Observes a response duration of `nanos` nanoseconds: the sum grows
    /// by the duration (truncated to 64 bits, wrapping), and every bucket
    /// whose bound is at least the duration, and the last bucket, count it.
    pub fn record_duration(&mut self, nanos: u128)
        requires
            old(self).wf(),
        ensures
            final(self).wf(),
            final(self).duration_sum() == if old(self).duration_sum() + (nanos as u64) > u64::MAX {
                (old(self).duration_sum() + (nanos as u64) - 0x1_0000_0000_0000_0000) as u64
            } else {
                (old(self).duration_sum() + (nanos as u64)) as u64
            },
            forall|i: int|
                0 <= i < 11 ==> #[trigger] final(self).buckets()[i] == if nanos
                    <= bucket_bounds_ns()[i] {
                    bump(old(self).buckets()[i])
                } else {
                    old(self).buckets()[i]
                },
            final(self).buckets()[11] == bump(old(self).buckets()[11]),
            *final(self) == (RequestMetrics {
                response_duration_sum_ns: final(self).response_duration_sum_ns,
                response_duration_buckets: final(self).response_duration_buckets,
                ..*old(self)
            }),
    {
        let ns = nanos as u64;
        self.response_duration_sum_ns = self.response_duration_sum_ns.wrapping_add(ns);
        let ghost b0 = self.response_duration_buckets@;
        let ghost s1 = self.response_duration_sum_ns;
        let ghost m1 = *self;
        let mut i: usize = 0;
        while i < 11
            invariant
                i <= 11,
                self.response_duration_sum_ns == s1,
                *self == (RequestMetrics { response_duration_buckets: self.response_duration_buckets, ..m1 }),
                self.response_duration_buckets@.len() == 12,
                b0.len() == 12,
                forall|k: int|
                    0 <= k < i ==> #[trigger] self.response_duration_buckets@[k] == if nanos
                        <= bucket_bounds_ns()[k] {
                        bump(b0[k])
                    } else {
                        b0[k]
                    },
                forall|k: int| i <= k < 12 ==> #[trigger] self.response_duration_buckets@[k] == b0[k],
            decreases 11 - i,
        {
            if nanos <= bucket_bound_ns(i) {
                let c = self.response_duration_buckets[i];
                self.response_duration_buckets.set(i, c.wrapping_add(1));
            }
            i = i + 1;
        }
        let c = self.response_duration_buckets[11];
        self.response_duration_buckets.set(11, c.wrapping_add(1));
    }

    /// Sum of the observed response durations, in nanoseconds.
    pub fn duration_sum_ns(&self) -> (s: u64)
        ensures
            s == self.duration_sum(),
    {
        self.response_duration_sum_ns
    }

    /// Cumulative histogram counts: one per bound, then the total.
    pub fn bucket_counts(&self) -> (v: Vec<u64>)
        ensures
            v@ == self.buckets(),
    {
        self.response_duration_buckets.clone()
    }
}

/// The bucket bounds in seconds, as the exposition prints them.
pub open spec fn bound_texts() -> Seq<Seq<char>> {
    seq![
        "0.005"@,
        "0.01"@,
        "0.025"@,
        "0.05"@,
        "0.1"@,
        "0.25"@,
        "0.5"@,
        "1"@,
        "2.5"@,
        "5"@,
        "10"@,
    ]
}

fn bound_text(i: usize) -> (s: &'static str)
    requires
        i < 11,
    ensures
        s@ == bound_texts()[i as int],
{
    if i == 0 {
        "0.005"
    } else if i == 1 {
        "0.01"
    } else if i == 2 {
        "0.025"
    } else if i == 3 {
        "0.05"
    } else if i == 4 {
        "0.1"
    } else if i == 5 {
        "0.25"
    } else if i == 6 {
        "0.5"
    } else if i == 7 {
        "1"
    } else if i == 8 {
        "2.5"
    } else if i == 9 {
        "5"
    } else {
        "10"
    }
}

/// A counter in the exposition: its type line and its sample.
pub open spec fn counter_block(name: Seq<char>, v: u64) -> Seq<char> {
    "# TYPE "@ + name + " counter\n"@ + name + " "@ + decimal(v as nat) + "\n"@
}

/// The counters, in exposition order.
pub open spec fn counters_text(m: RequestMetrics) -> Seq<char> {
    counter_block("cheetah_http_requests_total"@, m.requests_total)
        + counter_block("cheetah_http_responses_failed_total"@, m.responses_failed)
        + counter_block("cheetah_http_responses_2xx_total"@, m.responses_2xx)
        + counter_block("cheetah_http_responses_4xx_total"@, m.responses_4xx)
        + counter_block("cheetah_http_responses_5xx_total"@, m.responses_5xx)
        + counter_block("cheetah_gb28181_events_dropped_total"@, m.gb28181_events_dropped_total)
        + counter_block("cheetah_gb28181_events_admitted_total"@, m.gb28181_events_admitted_total)
        + counter_block("cheetah_gb28181_events_coalesced_total"@, m.gb28181_events_coalesced_total)
        + counter_block("cheetah_gb28181_events_shed_total"@, m.gb28181_events_shed_total)
        + counter_block(
        "cheetah_gb28181_events_dead_lettered_total"@,
        m.gb28181_events_dead_lettered_total,
    ) + counter_block("cheetah_gb28181_events_redriven_total"@, m.gb28181_events_redriven_total)
        + counter_block(
        "cheetah_gb28181_events_redrive_exhausted_total"@,
        m.gb28181_events_redrive_exhausted_total,
    )
}

/// One histogram bucket sample.
pub open spec fn bucket_line(le: Seq<char>, count: u64) -> Seq<char> {
    "cheetah_http_response_duration_seconds_bucket{le=\""@ + le + "\"} "@ + decimal(count as nat)
        + "\n"@
}

/// The samples of the first `k` bounded buckets.
pub open spec fn bucket_lines(b: Seq<u64>, k: nat) -> Seq<char>
    decreases k,
{
    if k == 0 {
        Seq::empty()
    } else {
        bucket_lines(b, (k - 1) as nat) + bucket_line(bound_texts()[k - 1], b[k - 1])
    }
}

/// The texts joined end to end.
pub open spec fn concat_texts(t: Seq<Seq<char>>) -> Seq<char>
    decreases t.len(),
{
    if t.len() == 0 {
        Seq::empty()
    } else {
        concat_texts(t.drop_last()) + t.last()
    }
}

/// The Prometheus exposition of the metrics: the counters, the duration
/// histogram (its sum, in seconds, printed as `sum_seconds`), then the
/// expositions of other exporters.
pub open spec fn exposition(m: RequestMetrics, sum_seconds: Seq<char>, exporters: Seq<Seq<char>>) -> Seq<char> {
    counters_text(m) + "# TYPE cheetah_http_response_duration_seconds histogram\n"@ + bucket_lines(
        m.buckets(),
        11,
    ) + bucket_line("+Inf"@, m.buckets()[11]) + "cheetah_http_response_duration_seconds_sum "@
        + sum_seconds + "\n"@ + "cheetah_http_response_duration_seconds_count "@ + decimal(
        m.buckets()[11] as nat,
    ) + "\n"@ + concat_texts(exporters)
}

/// Media type of the exposition.
pub fn metrics_content_type() -> (s: &'static str)
    ensures
        s@ == "text/plain; version=0.0.4"@,
{
    "text/plain; version=0.0.4"
}

fn push_counter(s: &mut String, name: &str, v: u64)
    ensures
        final(s)@ == old(s)@ + counter_block(name@, v),
{
    let ghost s0 = s@;
    push_str(s, "# TYPE ");
    push_str(s, name);
    push_str(s, " counter\n");
    push_str(s, name);
    push_str(s, " ");
    let d = to_decimal(v);
    push_str(s, d.as_str());
    push_str(s, "\n");
    assert(s@ =~= s0 + counter_block(name@, v));
}

fn push_bucket(s: &mut String, le: &str, count: u64)
    ensures
        final(s)@ == old(s)@ + bucket_line(le@, count),
{
    let ghost s0 = s@;
    push_str(s, "cheetah_http_response_duration_seconds_bucket{le=\"");
    push_str(s, le);
    push_str(s, "\"} ");
    let d = to_decimal(count);
    push_str(s, d.as_str());
    push_str(s, "\n");
    assert(s@ =~= s0 + bucket_line(le@, count));
}

/// The Prometheus exposition served for the metrics (with media type
/// [`metrics_content_type`]); `sum_seconds` is the duration sum in seconds
/// as printed, and `exporters` the expositions of other exporters, appended
/// in order.
pub fn metrics_response(metrics: &RequestMetrics, sum_seconds: &str, exporters: &Vec<String>) -> (s: String)
    requires
        metrics.wf(),
    ensures
        s@ == exposition(*metrics, sum_seconds@, exporters@.map_values(|e: String| e@)),
{
    let m = metrics;
    let mut s = String::new();
    push_counter(&mut s, "cheetah_http_requests_total", m.requests_total);
    push_counter(&mut s, "cheetah_http_responses_failed_total", m.responses_failed);
    push_counter(&mut s, "cheetah_http_responses_2xx_total", m.responses_2xx);
    push_counter(&mut s, "cheetah_http_responses_4xx_total", m.responses_4xx);
    push_counter(&mut s, "cheetah_http_responses_5xx_total", m.responses_5xx);
    push_counter(&mut s, "cheetah_gb28181_events_dropped_total", m.gb28181_events_dropped_total);
    push_counter(&mut s, "cheetah_gb28181_events_admitted_total", m.gb28181_events_admitted_total);
    push_counter(&mut s, "cheetah_gb28181_events_coalesced_total", m.gb28181_events_coalesced_total);
    push_counter(&mut s, "cheetah_gb28181_events_shed_total", m.gb28181_events_shed_total);
    push_counter(
        &mut s,
        "cheetah_gb28181_events_dead_lettered_total",
        m.gb28181_events_dead_lettered_total,
    );
    push_counter(&mut s, "cheetah_gb28181_events_redriven_total", m.gb28181_events_redriven_total);
    push_counter(
        &mut s,
        "cheetah_gb28181_events_redrive_exhausted_total",
        m.gb28181_events_redrive_exhausted_total,
    );
    assert(s@ =~= counters_text(*m));
    push_str(&mut s, "# TYPE cheetah_http_response_duration_seconds histogram\n");
    let ghost head = s@;
    let mut i: usize = 0;
    while i < 11
        invariant
            i <= 11,
            m.wf(),
            s@ == head + bucket_lines(m.buckets(), i as nat),
        decreases 11 - i,
    {
        push_bucket(&mut s, bound_text(i), m.response_duration_buckets[i]);
        assert(s@ =~= head + bucket_lines(m.buckets(), (i + 1) as nat));
        i = i + 1;
    }
    let total = m.response_duration_buckets[11];
    push_bucket(&mut s, "+Inf", total);
    push_str(&mut s, "cheetah_http_response_duration_seconds_sum ");
    push_str(&mut s, sum_seconds);
    push_str(&mut s, "\n");
    push_str(&mut s, "cheetah_http_response_duration_seconds_count ");
    let d = to_decimal(total);
    push_str(&mut s, d.as_str());
    push_str(&mut s, "\n");
    let ghost body = s@;
    let ghost ex = exporters@.map_values(|e: String| e@);
    let mut j: usize = 0;
    while j < exporters.len()
        invariant
            j <= exporters@.len(),
            ex == exporters@.map_values(|e: String| e@),
            s@ == body + concat_texts(ex.take(j as int)),
        decreases exporters.len() - j,
    {
        push_str(&mut s, exporters[j].as_str());
        assert(ex.take(j + 1).drop_last() =~= ex.take(j as int));
        assert(s@ =~= body + concat_texts(ex.take(j + 1)));
        j = j + 1;
    }
    assert(ex.take(j as int) =~= ex);
    assert(s@ =~= exposition(*m, sum_seconds@, ex));
    s
}

} // verus!
