//! Decisions of the router's middleware: which cross-origin requests are
//! allowed, which error bodies get the request identifier, and what an
//! unknown route answers.
use crate::api::error::ProblemDetails;
use crate::api::extract::{is_uuid_v7_text, new_uuid_v7_text};
use crate::ctl::{header_ok, is_valid_header_value};
use crate::text::{copy_str, starts_with, str_eq};
use vstd::prelude::*;

verus! {

/// Identifier of a request, for correlation; carried with the request and
/// sent back in the `x-request-id` response header.
#[derive(Clone, Debug)]
pub struct RequestId(pub String);

impl RequestId {
    /// The `x-request-id` sent (a non-empty text), or a fresh UUIDv7.
    pub fn from_header(header: Option<&str>) -> (r: RequestId)
        ensures
            match header {
                Some(h) if h@.len() > 0 => r.0@ == h@,
                _ => is_uuid_v7_text(r.0@),
            },
    {
        match header {
            Some(h) => if h.is_empty() {
                RequestId(new_uuid_v7_text())
            } else {
                RequestId(copy_str(h))
            },
            None => RequestId(new_uuid_v7_text()),
        }
    }
}

/// Cross-origin policy of the API.
#[derive(Debug)]
pub enum CorsPolicy {
    /// Any origin, method and header.
    AllowAny,
    /// Cross-origin requests are refused.
    Deny,
    /// These origins, with any method and header.
    AllowList(Vec<String>),
}

/// Configured origins that can be sent back as header values, in order.
pub open spec fn usable_origins(origins: Seq<Seq<char>>) -> Seq<Seq<char>>
    decreases origins.len(),
{
    if origins.len() == 0 {
        Seq::empty()
    } else {
        let o = origins.last();
        usable_origins(origins.drop_last()) + (if o.len() > 0 && header_ok(o) {
            seq![o]
        } else {
            Seq::empty()
        })
    }
}

/// Policy for the configured allowed origins: a `*` anywhere allows every
/// origin; otherwise the non-empty origins that are valid header values are
/// allowed, and none at all means cross-origin requests are refused.
pub open spec fn cors_policy_for(origins: Seq<Seq<char>>, p: CorsPolicy) -> bool {
    if exists|i: int| 0 <= i < origins.len() && origins[i] == "*"@ {
        p is AllowAny
    } else if usable_origins(origins).len() == 0 {
        p is Deny
    } else {
        p matches CorsPolicy::AllowList(list) && list@.map_values(|s: String| s@)
            == usable_origins(origins)
    }
}

/// Builds the cross-origin policy from the configured origins.
pub fn cors_policy(origins: &Vec<String>) -> (p: CorsPolicy)
    ensures
        cors_policy_for(origins@.map_values(|s: String| s@), p),
{
    let ghost view = origins@.map_values(|s: String| s@);
    let mut i: usize = 0;
    while i < origins.len()
        invariant
            i <= origins.len(),
            view == origins@.map_values(|s: String| s@),
            forall|k: int| 0 <= k < i ==> view[k] != "*"@,
        decreases origins.len() - i,
    {
        if str_eq(origins[i].as_str(), "*") {
            assert(view[i as int] == "*"@);
            return CorsPolicy::AllowAny;
        }
        i = i + 1;
    }
    let mut list: Vec<String> = Vec::new();
    let mut j: usize = 0;
    while j < origins.len()
        invariant
            j <= origins.len(),
            view == origins@.map_values(|s: String| s@),
            list@.map_values(|s: String| s@) == usable_origins(view.take(j as int)),
        decreases origins.len() - j,
    {
        let o = origins[j].as_str();
        let ghost before = list@;
        assert(view.take(j + 1).drop_last() =~= view.take(j as int));
        if o.unicode_len() > 0 && is_valid_header_value(o) {
            list.push(copy_str(o));
            assert(list@.map_values(|s: String| s@) =~= before.map_values(|s: String| s@)
                + seq![view[j as int]]);
        } else {
            assert(list@.map_values(|s: String| s@) =~= before.map_values(|s: String| s@)
                + Seq::<Seq<char>>::empty());
        }
        j = j + 1;
    }
    assert(view.take(origins.len() as int) =~= view);
    if list.len() == 0 {
        CorsPolicy::Deny
    } else {
        CorsPolicy::AllowList(list)
    }
}

/// `p` occurs in `s`.
pub open spec fn contains_seq(s: Seq<char>, p: Seq<char>) -> bool {
    exists|i: int| 0 <= i <= s.len() - p.len() && #[trigger] s.skip(i).take(p.len() as int) == p
}

/// Whether `p` occurs in `s`.
pub fn str_contains(s: &str, p: &str) -> (r: bool)
    ensures
        r == contains_seq(s@, p@),
{
    let n = s.unicode_len();
    let m = p.unicode_len();
    if m > n {
        return false;
    }
    let last = n - m;
    let mut i: usize = 0;
    while i < last
        invariant
            n == s@.len(),
            m == p@.len(),
            last == n - m,
            i <= last,
            forall|k: int| 0 <= k < i ==> s@.skip(k).take(m as int) != p@,
        decreases last - i,
    {
        let rest = s.substring_char(i, n);
        assert(rest@ =~= s@.skip(i as int));
        if starts_with(rest, p) {
            return true;
        }
        i = i + 1;
    }
    let rest = s.substring_char(last, n);
    assert(rest@ =~= s@.skip(last as int));
    if starts_with(rest, p) {
        return true;
    }
    assert forall|k: int| 0 <= k <= s@.len() - p@.len() implies #[trigger] s@.skip(k).take(p@.len() as int) != p@ by {
    }
    false
}

/// An error response that may carry a problem document: a client or server
/// error status with a JSON content type.
pub open spec fn may_carry_problem(status: u16, content_type: Seq<char>) -> bool {
    400 <= status <= 599 && contains_seq(content_type, "json"@)
}

/// Whether the body of a response with this status and content type is
/// read to add the request identifier.
pub fn may_need_request_id(status: u16, content_type: &str) -> (b: bool)
    ensures
        b == may_carry_problem(status, content_type@),
{
    400 <= status && status <= 599 && str_contains(content_type, "json")
}

/// The `request_id` member of an error body.
#[derive(Debug)]
pub enum RequestIdMember {
    /// The body has no such member.
    Missing,
    /// The member is `null`.
    Null,
    /// The member is a string.
    Text(String),
    /// The member holds a number, a boolean, an array or an object.
    OtherValue,
}

/// Whether an error body gets the request identifier: it must be a JSON
/// object with a `code` member (a problem document) whose `request_id` is
/// missing, `null` or an empty string.
pub open spec fn gets_request_id(is_object: bool, has_code: bool, member: RequestIdMember) -> bool {
    is_object && has_code && match member {
        RequestIdMember::Missing => true,
        RequestIdMember::Null => true,
        RequestIdMember::Text(t) => t@.len() == 0,
        RequestIdMember::OtherValue => false,
    }
}

/// Whether the request identifier is written into an error body of the
/// given shape.
pub fn problem_needs_request_id(is_object: bool, has_code: bool, member: &RequestIdMember) -> (b: bool)
    ensures
        b == gets_request_id(is_object, has_code, *member),
{
    if !is_object || !has_code {
        return false;
    }
    match member {
        RequestIdMember::Missing => true,
        RequestIdMember::Null => true,
        RequestIdMember::Text(t) => t.as_str().unicode_len() == 0,
        RequestIdMember::OtherValue => false,
    }
}

/// The answer to a request for an unknown route.
pub fn fallback_problem() -> (p: ProblemDetails)
    ensures
        p.code@ == "NOT_FOUND"@,
        p.message@ == "resource not found"@,
        p.status == 404,
        p.request_id is None,
        p.field_violations@.len() == 0,
{
    ProblemDetails {
        code: copy_str("NOT_FOUND"),
        message: copy_str("resource not found"),
        status: 404,
        request_id: None,
        field_violations: Vec::new(),
    }
}

} // verus!
