//! Request context, pagination, idempotency and tenant resolution.
use crate::api::error::{HttpError, SignalError, SignalErrorKind};
use crate::api::rate_limit::{RateKey, RateLimiter, SourceAddr};
use crate::text::{
    chars_of, copy_str, find_char, push_str, split_pieces, string_from_range,
    lemma_split_step,
};
use vstd::prelude::*;

verus! {

/// Page size used when a list request names none.
pub const DEFAULT_PAGE_SIZE: u32 = 50;

/// Name of what `uuid::Uuid::parse_str` makes of a text: the UUID's 128-bit
/// value, or the text of the parse error.
pub uninterp spec fn uuid_parsed(text: Seq<char>) -> Result<u128, Seq<char>>;

/// Calls `uuid::Uuid::parse_str`; the outcome is believed to be
/// `uuid_parsed` of the text (the value as `as_u128`, or the error's text).
#[verifier::external_body]
pub(crate) fn parse_uuid(text: &str) -> (r: Result<u128, String>)
    ensures
        match r {
            Ok(v) => uuid_parsed(text@) == Ok::<u128, Seq<char>>(v),
            Err(e) => uuid_parsed(text@) == Err::<u128, Seq<char>>(e@),
        },
{
    match uuid::Uuid::parse_str(text) {
        Ok(u) => Ok(u.as_u128()),
        Err(e) => Err(e.to_string()),
    }
}

/// A lowercase hexadecimal digit.
pub open spec fn is_lower_hex(c: char) -> bool {
    ('0' <= c && c <= '9') || ('a' <= c && c <= 'f')
}

/// The hyphenated lowercase text of a version-7 UUID with the RFC variant:
/// 36 characters, `-` at 8, 13, 18 and 23 and lowercase hexadecimal digits
/// elsewhere, the version digit `7` at 14 and a variant digit `8`, `9`, `a`
/// or `b` at 19.
pub open spec fn is_uuid_v7_text(s: Seq<char>) -> bool {
    &&& s.len() == 36
    &&& forall|i: int|
        0 <= i < 36 ==> if i == 8 || i == 13 || i == 18 || i == 23 {
            #[trigger] s[i] == '-'
        } else {
            is_lower_hex(s[i])
        }
    &&& s[14] == '7'
    &&& (s[19] == '8' || s[19] == '9' || s[19] == 'a' || s[19] == 'b')
}

/// Calls `uuid::Uuid::now_v7` and renders the new UUID with `to_string`,
/// the hyphenated lowercase form. The time and random digits rest on the
/// clock and on chance; what is claimed is the form every such text has:
/// hyphens and lowercase hexadecimal digits in place, version `7` and the
/// RFC variant.
#[verifier::external_body]
pub(crate) fn new_uuid_v7_text() -> (s: String)
    ensures
        is_uuid_v7_text(s@),
{
    uuid::Uuid::now_v7().to_string()
}

/// Query parameters for list endpoints.
#[derive(Clone, Debug)]
pub struct ListQuery {
    /// Opaque pagination cursor.
    pub cursor: Option<String>,
    /// Maximum number of items to return.
    pub page_size: u32,
    /// Protocol filter.
    pub protocol: Option<String>,
    /// Lifecycle or status filter.
    pub status: Option<String>,
    /// Name prefix filter.
    pub name_prefix: Option<String>,
    /// Updated after timestamp.
    pub updated_after: Option<String>,
    /// Optional parent device id filter.
    pub device_id: Option<String>,
    /// Optional media session purpose filter.
    pub purpose: Option<String>,
    /// Optional enabled flag filter for webhooks.
    pub enabled: Option<bool>,
    /// Optional event type filter for webhooks.
    pub event_type: Option<String>,
}

impl Default for ListQuery {
    fn default() -> (q: ListQuery)
        ensures
            q.page_size == DEFAULT_PAGE_SIZE,
            q.cursor is None,
            q.protocol is None,
            q.status is None,
            q.name_prefix is None,
            q.updated_after is None,
            q.device_id is None,
            q.purpose is None,
            q.enabled is None,
            q.event_type is None,
    {
        ListQuery {
            cursor: None,
            page_size: DEFAULT_PAGE_SIZE,
            protocol: None,
            status: None,
            name_prefix: None,
            updated_after: None,
            device_id: None,
            purpose: None,
            enabled: None,
            event_type: None,
        }
    }
}

/// The `Idempotency-Key` of a request.
#[derive(Clone, Debug)]
pub struct IdempotencyKey(pub String);

impl IdempotencyKey {
    /// The key sent in the header (a non-empty text), or a fresh UUIDv7.
    pub fn from_header(header: Option<&str>) -> (k: IdempotencyKey)
        ensures
            match header {
                Some(h) if h@.len() > 0 => k.0@ == h@,
                _ => is_uuid_v7_text(k.0@),
            },
    {
        match header {
            Some(h) => if h.is_empty() {
                IdempotencyKey(new_uuid_v7_text())
            } else {
                IdempotencyKey(copy_str(h))
            },
            None => IdempotencyKey(new_uuid_v7_text()),
        }
    }
}

/// Optional deadline and owner epoch overrides for command endpoints.
#[derive(Clone, Debug, Default)]
pub struct CommandOptions {
    /// RFC 3339 deadline; 30 seconds from now when omitted.
    pub deadline: Option<String>,
    /// Expected owner epoch for fencing; 1 when omitted.
    pub owner_epoch: Option<u64>,
}

impl CommandOptions {
    /// The owner epoch to fence the command with.
    pub fn owner_epoch(&self) -> (e: u64)
        ensures
            e == match self.owner_epoch {
                Some(v) => v,
                None => 1,
            },
    {
        match self.owner_epoch {
            Some(v) => v,
            None => 1,
        }
    }
}

/// Why no tenant could be resolved.
#[derive(Clone, Copy, Debug, PartialEq, Eq, Structural)]
pub enum TenantRefusal {
    /// The header and the token name different tenants.
    Mismatch,
    /// The header is not a tenant identifier.
    Invalid,
    /// Neither the header nor the token names a tenant.
    Missing,
}

/// The tenant a request acts for: the `x-tenant-id` header and the token's
/// tenant must agree; either alone decides.
pub open spec fn tenant_of(header: Option<Seq<char>>, token_tenant: Option<u128>) -> Result<
    u128,
    TenantRefusal,
> {
    match header {
        Some(h) => match uuid_parsed(h) {
            Ok(t) => match token_tenant {
                Some(a) if a != t => Err(TenantRefusal::Mismatch),
                _ => Ok(t),
            },
            Err(_) => Err(TenantRefusal::Invalid),
        },
        None => match token_tenant {
            Some(a) => Ok(a),
            None => Err(TenantRefusal::Missing),
        },
    }
}

/// Resolves the tenant of a request from the `x-tenant-id` header (`None`
/// when absent or not text) and the token's tenant claim.
pub fn resolve_tenant_id(header: Option<&str>, token_tenant: Option<u128>) -> (r: Result<
    u128,
    HttpError,
>)
    ensures
        match tenant_of(
            match header {
                Some(h) => Some(h@),
                None => None,
            },
            token_tenant,
        ) {
            Ok(t) => r == Ok::<u128, HttpError>(t),
            Err(TenantRefusal::Mismatch) => r matches Err(HttpError::PermissionDenied(x)) && x@
                == "tenant header does not match token tenant"@,
            Err(TenantRefusal::Invalid) => r matches Err(HttpError::Signal(s)) && s.kind
                == SignalErrorKind::InvalidArgument && s.message@ == "invalid tenant id"@,
            Err(TenantRefusal::Missing) => r matches Err(HttpError::Unauthenticated(x)) && x@
                == "tenant id is required via x-tenant-id header or token claim"@,
        },
{
    match header {
        Some(h) => match parse_uuid(h) {
            Ok(t) => match token_tenant {
                Some(a) => if a != t {
                    Err(HttpError::PermissionDenied(copy_str("tenant header does not match token tenant")))
                } else {
                    Ok(t)
                },
                None => Ok(t),
            },
            Err(_) => Err(
                HttpError::Signal(
                    SignalError::new(SignalErrorKind::InvalidArgument, copy_str("invalid tenant id")),
                ),
            ),
        },
        None => match token_tenant {
            Some(a) => Ok(a),
            None => Err(
                HttpError::Unauthenticated(
                    copy_str("tenant id is required via x-tenant-id header or token claim"),
                ),
            ),
        },
    }
}

/// Parses an `x-request-id` or `x-correlation-id` header (`None` when it is
/// not text) as a UUID.
pub fn parse_message_or_correlation_id(header: Option<&str>, name: &str) -> (r: Result<
    u128,
    HttpError,
>)
    ensures
        match header {
            None => r matches Err(HttpError::Unauthenticated(m)) && m@ == name@
                + " header is not valid UTF-8"@,
            Some(h) => match uuid_parsed(h@) {
                Ok(v) => r == Ok::<u128, HttpError>(v),
                Err(e) => r matches Err(HttpError::Unauthenticated(m)) && m@ == "invalid "@ + name@
                    + ": "@ + e,
            },
        },
{
    match header {
        None => {
            let mut m = copy_str(name);
            push_str(&mut m, " header is not valid UTF-8");
            Err(HttpError::Unauthenticated(m))
        },
        Some(h) => match parse_uuid(h) {
            Ok(v) => Ok(v),
            Err(e) => {
                let mut m = copy_str("invalid ");
                push_str(&mut m, name);
                push_str(&mut m, ": ");
                push_str(&mut m, e.as_str());
                Err(HttpError::Unauthenticated(m))
            },
        },
    }
}

/// The protocol of the tenant rate-limit key: the text between the first
/// and second `/` of the path (empty when there is none).
pub open spec fn tenant_protocol_of(path: Seq<char>) -> Seq<char> {
    let p = split_pieces(path, '/');
    if p.len() > 1 {
        p[1]
    } else {
        Seq::empty()
    }
}

/// The protocol of the tenant rate-limit key of a path.
pub fn tenant_rate_protocol(path: &str) -> (p: String)
    ensures
        p@ == tenant_protocol_of(path@),
{
    let v = chars_of(path);
    let i = find_char(&v, 0, v.len(), '/');
    assert(v@.subrange(0, v@.len() as int) =~= v@);
    assert(v@.skip(0) =~= v@);
    proof {
        lemma_split_step(v@, '/', 0, i as int);
    }
    if i == v.len() {
        return String::new();
    }
    let j = find_char(&v, i + 1, v.len(), '/');
    proof {
        assert(v@.subrange(i + 1, v@.len() as int) =~= v@.skip(i + 1));
        lemma_split_step(v@, '/', i + 1, j as int);
    }
    string_from_range(&v, i + 1, j)
}

/// Applies the per-tenant rate limit of a request at `now_ns`.
pub fn check_tenant_rate_limit(
    limiter: &mut RateLimiter,
    source: SourceAddr,
    tenant: &str,
    path: &str,
    node: &str,
    now_ns: u64,
) -> (r: Result<(), HttpError>)
    requires
        old(limiter).wf(),
    ensures
        final(limiter).wf(),
        old(limiter).disabled() ==> r is Ok && *final(limiter) == *old(limiter),
        !old(limiter).disabled() ==> ({
            let key = (source, tenant@, tenant_protocol_of(path@), node@);
            let res = crate::api::rate_limit::check_result(
                old(limiter).buckets_view(),
                old(limiter).capacity_spec(),
                old(limiter).rate_spec(),
                old(limiter).next_cleanup_spec(),
                key,
                now_ns,
            );
            &&& final(limiter).buckets_view() == res.0
            &&& (r is Ok <==> res.2)
            &&& (r matches Err(e) ==> (e matches HttpError::RateLimited(m) && m@
                == "tenant rate limit exceeded"@))
        }),
{
    if limiter.is_disabled() {
        return Ok(());
    }
    let key = RateKey {
        source,
        tenant: copy_str(tenant),
        protocol: tenant_rate_protocol(path),
        node: copy_str(node),
    };
    if limiter.check(&key, now_ns) {
        Ok(())
    } else {
        Err(HttpError::RateLimited(copy_str("tenant rate limit exceeded")))
    }
}

} // verus!
