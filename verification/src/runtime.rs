//! Runtime bookkeeping of the signaling process: component health, clock,
//! identifier generation, audit records and the webhook store.
use crate::clock::{instant_now, millis_since, saturating_millis};
use crate::api::extract::{parse_uuid, uuid_parsed};
use crate::api::media::{lowercase_is, lowercases_to};
use crate::text::{copy_str, decimal, push_str, str_eq, to_decimal};
use vstd::prelude::*;

verus! {

/// Health status of a single runtime component.
#[derive(Clone, Debug)]
pub enum ComponentStatus {
    /// Component is running.
    Running,
    /// Component stopped cleanly.
    Stopped,
    /// Component stopped with an error.
    Failed(String),
}

/// A component status as the contracts see it.
pub enum StatusView {
    /// Running.
    Running,
    /// Stopped cleanly.
    Stopped,
    /// Failed with the message.
    Failed(Seq<char>),
}

/// The status as the contracts see it.
pub open spec fn status_view(s: ComponentStatus) -> StatusView {
    match s {
        ComponentStatus::Running => StatusView::Running,
        ComponentStatus::Stopped => StatusView::Stopped,
        ComponentStatus::Failed(m) => StatusView::Failed(m@),
    }
}

/// The last status recorded for `name`, if any.
pub open spec fn last_status(s: Seq<(String, ComponentStatus)>, name: Seq<char>) -> Option<StatusView>
    decreases s.len(),
{
    if s.len() == 0 {
        None
    } else if s.last().0@ == name {
        Some(status_view(s.last().1))
    } else {
        last_status(s.drop_last(), name)
    }
}

/// Aggregated health of all supervised runtime components.
#[derive(Clone, Debug, Default)]
pub struct RuntimeHealth {
    components: Vec<(String, ComponentStatus)>,
}

/// Name under which the `i`-th worker is reported.
pub open spec fn worker_name(i: nat) -> Seq<char> {
    "worker-"@ + decimal(i)
}

impl RuntimeHealth {
    /// Component name to last observed status.
    pub closed spec fn statuses(&self) -> Map<Seq<char>, StatusView> {
        Map::new(
            |n: Seq<char>| last_status(self.components@, n) is Some,
            |n: Seq<char>| last_status(self.components@, n)->0,
        )
    }

    /// No component reported yet.
    pub fn new() -> (h: RuntimeHealth)
        ensures
            h.statuses() == Map::<Seq<char>, StatusView>::empty(),
    {
        let h = RuntimeHealth { components: Vec::new() };
        assert(h.statuses() =~= Map::<Seq<char>, StatusView>::empty());
        h
    }

    /// Records the status of a component, replacing an earlier one.
    pub fn insert(&mut self, name: String, status: ComponentStatus)
        ensures
            final(self).statuses() == old(self).statuses().insert(name@, status_view(status)),
    {
        let ghost n = name@;
        let ghost sv = status_view(status);
        self.components.push((name, status));
        assert(self.components@.drop_last() =~= old(self).components@);
        assert(self.statuses() =~= old(self).statuses().insert(n, sv));
    }

    /// The status recorded for a component.
    pub fn get(&self, name: &str) -> (r: Option<&ComponentStatus>)
        ensures
            match r {
                Some(s) => self.statuses().contains_key(name@) && self.statuses()[name@] == status_view(*s),
                None => !self.statuses().contains_key(name@),
            },
    {
        let mut i = self.components.len();
        assert(self.components@.take(i as int) =~= self.components@);
        while i > 0
            invariant
                i <= self.components@.len(),
                last_status(self.components@, name@) == last_status(
                    self.components@.take(i as int),
                    name@,
                ),
            decreases i,
        {
            let ghost pre = self.components@.take(i as int);
            assert(pre.drop_last() =~= self.components@.take(i - 1));
            assert(pre.last() == self.components@[i - 1]);
            if str_eq(self.components[i - 1].0.as_str(), name) {
                return Some(&self.components[i - 1].1);
            }
            i = i - 1;
        }
        assert(self.components@.take(0) =~= Seq::<(String, ComponentStatus)>::empty());
        None
    }

    /// Records how the `index`-th worker ended during shutdown: stopped
    /// cleanly, or failed with the error's text.
    pub fn record_worker_exit(&mut self, index: usize, result: Result<(), String>)
        ensures
            final(self).statuses() == old(self).statuses().insert(
                worker_name(index as nat),
                match result {
                    Ok(()) => StatusView::Stopped,
                    Err(m) => StatusView::Failed(m@),
                },
            ),
    {
        let mut name = copy_str("worker-");
        let d = to_decimal(index as u64);
        push_str(&mut name, d.as_str());
        let status = match result {
            Ok(()) => ComponentStatus::Stopped,
            Err(m) => ComponentStatus::Failed(m),
        };
        self.insert(name, status);
    }

    /// Records that the `index`-th worker was aborted at the shutdown
    /// deadline.
    pub fn record_worker_aborted(&mut self, index: usize)
        ensures
            final(self).statuses() == old(self).statuses().insert(
                worker_name(index as nat),
                StatusView::Failed("shutdown deadline exceeded; worker aborted"@),
            ),
    {
        let mut name = copy_str("worker-");
        let d = to_decimal(index as u64);
        push_str(&mut name, d.as_str());
        self.insert(
            name,
            ComponentStatus::Failed(copy_str("shutdown deadline exceeded; worker aborted")),
        );
    }
}

/// System monotonic clock of the signaling process.
#[derive(Debug, Clone, Copy)]
pub struct SystemClock {
    start: std::time::Instant,
}

impl SystemClock {
    /// Creates a new system clock, started now.
    pub fn new() -> (c: SystemClock) {
        SystemClock { start: instant_now() }
    }

    /// Milliseconds since the clock was created (saturating).
    pub fn now_monotonic_ms(&self) -> (ms: i64)
        ensures
            ms >= 0,
    {
        saturating_millis(millis_since(&self.start))
    }
}

impl Default for SystemClock {
    fn default() -> (c: SystemClock) {
        SystemClock::new()
    }
}

/// Calls `uuid::Uuid::now_v7` and returns the new UUID's value. The time
/// and random parts rest on the clock and on chance; what is claimed is
/// only what every such UUID carries: version 7 in bits 76 to 79 and the
/// RFC variant `10` in bits 62 and 63.
#[verifier::external_body]
fn now_v7_value() -> (v: u128)
    ensures
        (v >> 76u128) & 0xfu128 == 7,
        (v >> 62u128) & 3u128 == 2,
{
    uuid::Uuid::now_v7().as_u128()
}

/// UUIDv7 identifier generator.
#[derive(Debug, Default, Clone, Copy)]
pub struct UuidIdGenerator;

impl UuidIdGenerator {
    /// A fresh time-ordered identifier (UUIDv7 value).
    pub fn generate(&self) -> (v: u128)
        ensures
            (v >> 76u128) & 0xfu128 == 7,
            (v >> 62u128) & 3u128 == 2,
    {
        now_v7_value()
    }

    /// A media node instance epoch: the low 64 bits of a fresh UUIDv7, whose
    /// top two bits are the UUID variant `10`.
    pub fn generate_media_node_instance_epoch(&self) -> (e: u64)
        ensures
            (e >> 62u64) & 3u64 == 2,
    {
        let v = now_v7_value();
        let e = (v % 0x1_0000_0000_0000_0000u128) as u64;
        assert((e >> 62u64) & 3u64 == 2) by (bit_vector)
            requires
                (v >> 62u128) & 3u128 == 2,
                e == (v % 0x1_0000_0000_0000_0000u128) as u64,
        ;
        e
    }
}

/// Outcome of an audited action.
#[derive(Clone, Debug)]
pub enum AuditOutcome {
    /// The action succeeded.
    Success,
    /// The action failed.
    Failure { reason: String },
    /// The action was denied.
    Denied { reason: String },
}

/// Audit sink that emits each event as a structured log record.
#[derive(Clone, Copy, Debug, Default)]
pub struct TracingAuditLog;

impl TracingAuditLog {
    /// The outcome label and reason logged for an outcome.
    pub fn outcome_fields(outcome: &AuditOutcome) -> (r: (&'static str, Option<String>))
        ensures
            match outcome {
                AuditOutcome::Success => r.0@ == "success"@ && r.1 is None,
                AuditOutcome::Failure { reason } => r.0@ == "failure"@ && (r.1 matches Some(x)
                    && x@ == reason@),
                AuditOutcome::Denied { reason } => r.0@ == "denied"@ && (r.1 matches Some(x) && x@
                    == reason@),
            },
    {
        match outcome {
            AuditOutcome::Success => ("success", None),
            AuditOutcome::Failure { reason } => ("failure", Some(copy_str(reason.as_str()))),
            AuditOutcome::Denied { reason } => ("denied", Some(copy_str(reason.as_str()))),
        }
    }
}

/// Shared webhook state.
#[derive(Clone, Debug, Default)]
pub struct WebhookStore {}

impl WebhookStore {
    /// Creates an empty webhook store.
    pub fn new() -> (s: WebhookStore) {
        WebhookStore {}
    }
}

/// The TLS material that the gRPC server loads from the secret store.
#[derive(Clone, Debug)]
pub struct GrpcTlsPlan {
    /// Secret reference of the server certificate.
    pub cert_ref: String,
    /// Secret reference of the server key.
    pub key_ref: String,
    /// Secret reference of the CA that client certificates must chain to.
    pub client_ca_ref: Option<String>,
    /// Clients must present a certificate naming the node they claim to be;
    /// set exactly when a client CA is configured.
    pub require_mtls: bool,
}

/// Characters of an optional string slice.
pub open spec fn opt_text(o: Option<&str>) -> Option<Seq<char>> {
    match o {
        Some(s) => Some(s@),
        None => None,
    }
}

/// Decides the gRPC TLS set-up from the configured secret references: no
/// certificate means plain transport (and no client CA may be set); a
/// certificate needs its key; a client CA makes mutual TLS required.
pub fn grpc_tls_plan(cert_ref: Option<&str>, key_ref: Option<&str>, client_ca_ref: Option<&str>) -> (r:
    Result<Option<GrpcTlsPlan>, String>)
    ensures
        cert_ref is None && client_ca_ref is Some ==> (r matches Err(e) && e@
            == "grpc.mtls_client_ca_ref requires grpc.tls_cert_ref"@),
        cert_ref is None && client_ca_ref is None ==> r matches Ok(None),
        cert_ref is Some && key_ref is None ==> (r matches Err(e) && e@
            == "grpc.tls_key_ref is required when grpc.tls_cert_ref is set"@),
        cert_ref is Some && key_ref is Some ==> (r matches Ok(Some(p)) && Some(p.cert_ref@) == opt_text(
            cert_ref,
        ) && Some(p.key_ref@) == opt_text(key_ref) && match p.client_ca_ref {
            Some(c) => opt_text(client_ca_ref) == Some(c@),
            None => client_ca_ref is None,
        } && p.require_mtls == client_ca_ref is Some),
{
    let cert = match cert_ref {
        None => {
            if client_ca_ref.is_some() {
                return Err(copy_str("grpc.mtls_client_ca_ref requires grpc.tls_cert_ref"));
            }
            return Ok(None);
        },
        Some(c) => c,
    };
    let key = match key_ref {
        None => {
            return Err(copy_str("grpc.tls_key_ref is required when grpc.tls_cert_ref is set"));
        },
        Some(k) => k,
    };
    let client_ca = match client_ca_ref {
        Some(c) => Some(copy_str(c)),
        None => None,
    };
    Ok(
        Some(
            GrpcTlsPlan {
                cert_ref: copy_str(cert),
                key_ref: copy_str(key),
                client_ca_ref: client_ca,
                require_mtls: client_ca_ref.is_some(),
            },
        ),
    )
}

/// Where the scheme of a URL ends: the first `://` at or after `i`, or the
/// end of the text when there is none.
pub open spec fn scheme_end_from(url: Seq<char>, i: int) -> int
    decreases url.len() - i,
{
    if i < 0 || i + 3 > url.len() {
        url.len() as int
    } else if url.subrange(i, i + 3) == "://"@ {
        i
    } else {
        scheme_end_from(url, i + 1)
    }
}

/// The scheme of a URL: the text before its first `://` (all of it when
/// there is none).
pub open spec fn url_scheme(url: Seq<char>) -> Seq<char> {
    url.take(scheme_end_from(url, 0))
}

/// Checks the NATS URL of a cluster deployment: it must be given, and its
/// scheme, in lowercase, must be `tls` or `wss`.
pub fn check_nats_url(url: &str) -> (r: Result<(), String>)
    ensures
        url@.len() == 0 ==> (r matches Err(e) && e@
            == "messaging.nats_url or messaging.nats_url_ref is required when backend=nats"@),
        url@.len() > 0 ==> if lowercases_to(url_scheme(url@), "tls"@) || lowercases_to(
            url_scheme(url@),
            "wss"@,
        ) {
            r is Ok
        } else {
            r matches Err(e) && e@
                == "messaging.nats_url must use tls:// or wss:// scheme for cluster deployments"@
        },
{
    let n = url.unicode_len();
    if n == 0 {
        return Err(copy_str("messaging.nats_url or messaging.nats_url_ref is required when backend=nats"));
    }
    proof {
        reveal_strlit("://");
        reveal_strlit("tls");
        reveal_strlit("wss");
    }
    let mut i: usize = 0;
    let mut end: usize = n;
    let mut searching = true;
    while searching && n - i >= 3
        invariant
            n == url@.len(),
            i <= n,
            searching ==> scheme_end_from(url@, 0) == scheme_end_from(url@, i as int) && end == n,
            !searching ==> end == scheme_end_from(url@, 0) && end <= n,
        decreases n - i + (if searching { 1int } else { 0int }),
    {
        proof {
            reveal_strlit("://");
        }
        if url.get_char(i) == ':' && url.get_char(i + 1) == '/' && url.get_char(i + 2) == '/' {
            assert(url@.subrange(i as int, i + 3) =~= "://"@);
            end = i;
            searching = false;
        } else {
            assert(url@.subrange(i as int, i + 3) != "://"@) by {
                if url@.subrange(i as int, i + 3) == "://"@ {
                    assert(url@.subrange(i as int, i + 3)[0] == url@[i as int]);
                    assert(url@.subrange(i as int, i + 3)[1] == url@[i + 1]);
                    assert(url@.subrange(i as int, i + 3)[2] == url@[i + 2]);
                }
            }
            i = i + 1;
        }
    }
    assert(end == scheme_end_from(url@, 0));
    let scheme = url.substring_char(0, end);
    assert(scheme@ =~= url_scheme(url@));
    if lowercase_is(scheme, "tls") || lowercase_is(scheme, "wss") {
        Ok(())
    } else {
        Err(copy_str("messaging.nats_url must use tls:// or wss:// scheme for cluster deployments"))
    }
}

/// The owner lease time to live: the configured milliseconds, or 10 s when
/// none (zero) is configured.
pub fn lease_ttl_ms(configured_ms: u64) -> (ms: u64)
    ensures
        ms == if configured_ms > 0 { configured_ms } else { 10_000 },
{
    if configured_ms > 0 { configured_ms } else { 10_000 }
}

/// How often owned devices' leases are renewed: a third of the lease time
/// to live, counting a lease shorter than 1 s as 1 s.
pub fn renew_interval_ms(lease_ttl_ms: u64) -> (ms: u64)
    ensures
        ms == (if lease_ttl_ms < 1_000 { 1_000 } else { lease_ttl_ms }) / 3,
{
    (if lease_ttl_ms < 1_000 { 1_000 } else { lease_ttl_ms }) / 3
}

/// The node heartbeat interval: the configured milliseconds, or 3 s when
/// none (zero) is configured.
pub fn heartbeat_interval_ms(configured_ms: u64) -> (ms: u64)
    ensures
        ms == if configured_ms > 0 { configured_ms } else { 3_000 },
{
    if configured_ms > 0 { configured_ms } else { 3_000 }
}

/// The tenant of a GB28181 listener: none for an empty setting, else the
/// UUID it holds; a setting that is not a UUID is refused, naming the
/// listener.
pub fn listener_tenant(listener_id: &str, tenant_id: &str) -> (r: Result<Option<u128>, String>)
    ensures
        tenant_id@.len() == 0 ==> r == Ok::<Option<u128>, String>(None),
        tenant_id@.len() > 0 ==> match uuid_parsed(tenant_id@) {
            Ok(v) => r == Ok::<Option<u128>, String>(Some(v)),
            Err(e) => r matches Err(m) && m@ == "gb28181 listener '"@ + listener_id@
                + "' tenant_id is not a valid UUID: "@ + e,
        },
{
    if tenant_id.unicode_len() == 0 {
        return Ok(None);
    }
    match parse_uuid(tenant_id) {
        Ok(v) => Ok(Some(v)),
        Err(e) => {
            let mut m = copy_str("gb28181 listener '");
            push_str(&mut m, listener_id);
            push_str(&mut m, "' tenant_id is not a valid UUID: ");
            push_str(&mut m, e.as_str());
            Err(m)
        },
    }
}

} // verus!
