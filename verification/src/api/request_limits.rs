//! Request size and shape limits enforced before authentication.
use crate::api::error::HttpError;
use crate::text::{byte_len, byte_len_exceeds, copy_str, decimal, parse_unsigned, parse_unsigned_str, push_str, to_decimal};
use vstd::prelude::*;

verus! {

/// Limits on the shape of a request.
#[derive(Clone, Copy, Debug)]
pub struct RequestLimits {
    /// Most bytes a request body may declare.
    pub request_body_limit_bytes: usize,
    /// Most header fields a request may carry.
    pub max_request_headers: usize,
    /// Most bytes of the request URI (path and query).
    pub max_request_uri_length: usize,
}

/// The parts of a request that the limits look at.
#[derive(Clone, Debug)]
pub struct RequestShape {
    /// The request URI as text.
    pub uri: String,
    /// Number of header fields.
    pub header_count: usize,
    /// The `Content-Length` header: absent, present but not visible ASCII
    /// text, or its text.
    pub content_length: Option<Option<String>>,
}

/// The refusal a request gets, if any: the first limit it breaks, checking
/// the URI, then the header count, then the declared body length.
pub open spec fn limit_error(r: RequestShape, l: RequestLimits) -> Option<Seq<char>> {
    if byte_len(r.uri@) > l.max_request_uri_length {
        Some("request URI exceeds "@ + decimal(l.max_request_uri_length as nat) + " bytes"@)
    } else if r.header_count > l.max_request_headers {
        Some("request has more than "@ + decimal(l.max_request_headers as nat) + " headers"@)
    } else {
        match r.content_length {
            None => None,
            Some(None) => Some("invalid content-length header"@),
            Some(Some(text)) => match parse_unsigned(text@, usize::MAX as nat) {
                None => Some("invalid content-length header"@),
                Some(n) => if n > l.request_body_limit_bytes {
                    Some(
                        "content-length "@ + decimal(n) + " exceeds "@ + decimal(
                            l.request_body_limit_bytes as nat,
                        ) + " bytes"@,
                    )
                } else {
                    None
                },
            },
        }
    }
}

fn too_large(parts: &str, n: usize, tail: &str) -> (e: HttpError)
    ensures
        e matches HttpError::PayloadTooLarge(m) && m@ == parts@ + decimal(n as nat) + tail@,
{
    let mut m = copy_str(parts);
    let d = to_decimal(n as u64);
    push_str(&mut m, d.as_str());
    push_str(&mut m, tail);
    HttpError::PayloadTooLarge(m)
}

/// Rejects oversized or malformed requests with a 413 error.
pub fn check_limits(req: &RequestShape, limits: &RequestLimits) -> (r: Option<HttpError>)
    ensures
        match limit_error(*req, *limits) {
            None => r is None,
            Some(m) => r matches Some(HttpError::PayloadTooLarge(x)) && x@ == m,
        },
{
    if byte_len_exceeds(req.uri.as_str(), limits.max_request_uri_length) {
        return Some(too_large("request URI exceeds ", limits.max_request_uri_length, " bytes"));
    }
    if req.header_count > limits.max_request_headers {
        return Some(too_large("request has more than ", limits.max_request_headers, " headers"));
    }
    match &req.content_length {
        None => None,
        Some(None) => Some(HttpError::PayloadTooLarge(copy_str("invalid content-length header"))),
        Some(Some(text)) => match parse_unsigned_str(text.as_str(), usize::MAX as u64) {
            None => Some(HttpError::PayloadTooLarge(copy_str("invalid content-length header"))),
            Some(n) => {
                let length = n as usize;
                if length > limits.request_body_limit_bytes {
                    let mut m = copy_str("content-length ");
                    let d = to_decimal(n);
                    push_str(&mut m, d.as_str());
                    push_str(&mut m, " exceeds ");
                    let l = to_decimal(limits.request_body_limit_bytes as u64);
                    push_str(&mut m, l.as_str());
                    push_str(&mut m, " bytes");
                    Some(HttpError::PayloadTooLarge(m))
                } else {
                    None
                }
            },
        },
    }
}

} // verus!
