//! Building blocks of the operational command-line client.
use crate::api::rate_limit::{path_segments, path_segments_of};
use crate::json::{json_quoted, quote_json};
use crate::text::{chars_of, copy_str, decimal, push_str, strings_view, to_decimal, trim, trim_bounds};
use vstd::prelude::*;

verus! {

/// Name of what `url::Url::parse` of `base`, followed by
/// `path_segments_mut()`, `pop_if_empty()` and `extend(segments)`, makes:
/// the serialized URL; or `Some` of the parse error's text; or `None` where
/// the parsed URL cannot be a base.
pub uninterp spec fn url_with_segments(base: Seq<char>, segments: Seq<Seq<char>>) -> Result<
    Seq<char>,
    Option<Seq<char>>,
>;

/// Parses `base` with `url::Url::parse`, drops an empty last path segment
/// and appends `segments` (each percent-encoded, `.` and `..` skipped) with
/// `PathSegmentsMut`; the outcome is believed to be `url_with_segments` of
/// the arguments, nothing more.
#[verifier::external_body]
fn append_segments(base: &str, segments: &Vec<String>) -> (r: Result<String, Option<String>>)
    ensures
        match r {
            Ok(u) => url_with_segments(base@, strings_view(segments@)) == Ok::<Seq<char>, Option<Seq<char>>>(u@),
            Err(Some(e)) => url_with_segments(base@, strings_view(segments@)) == Err::<Seq<char>, Option<Seq<char>>>(Some(e@)),
            Err(None) => url_with_segments(base@, strings_view(segments@)) == Err::<Seq<char>, Option<Seq<char>>>(None),
        },
{
    let mut url = url::Url::parse(base).map_err(|e| Some(e.to_string()))?;
    url.path_segments_mut().map_err(|_| None)?.pop_if_empty().extend(segments.iter());
    Ok(url.to_string())
}

/// Message for a base URL that cannot take path segments.
pub open spec fn not_a_base_message() -> Seq<char> {
    "base URL cannot be used as a base for path segments"@
}

/// The URL built from `base` and `segments`, or the text of the failure.
pub open spec fn url_outcome(base: Seq<char>, segments: Seq<Seq<char>>) -> Result<Seq<char>, Seq<char>> {
    match url_with_segments(base, segments) {
        Ok(u) => Ok(u),
        Err(Some(e)) => Err(e),
        Err(None) => Err(not_a_base_message()),
    }
}

/// Appends `segments` to `base`, with the failure as text.
fn url_joined(base: &str, segments: &Vec<String>) -> (r: Result<String, String>)
    ensures
        match r {
            Ok(u) => url_outcome(base@, strings_view(segments@)) == Ok::<Seq<char>, Seq<char>>(u@),
            Err(e) => url_outcome(base@, strings_view(segments@)) == Err::<Seq<char>, Seq<char>>(e@),
        },
{
    match append_segments(base, segments) {
        Ok(u) => Ok(u),
        Err(Some(e)) => Err(e),
        Err(None) => Err(copy_str("base URL cannot be used as a base for path segments")),
    }
}

/// Builds an admin endpoint URL by appending the segments of `path` to
/// `base_url`.
pub fn admin_url(base: &str, path: &str) -> (r: Result<String, String>)
    ensures
        match r {
            Ok(u) => url_outcome(base@, path_segments_of(path@)) == Ok::<Seq<char>, Seq<char>>(u@),
            Err(e) => url_outcome(base@, path_segments_of(path@)) == Err::<Seq<char>, Seq<char>>(e@),
        },
{
    let segments = path_segments(path);
    url_joined(base, &segments)
}

/// Path segments of a device's diagnostics endpoint.
pub open spec fn diagnostics_segments(id: Seq<char>) -> Seq<Seq<char>> {
    seq!["api"@, "v1"@, "admin"@, "devices"@, id, "diagnostics"@]
}

/// Builds a device diagnostics URL; the identifier is one percent-encoded
/// segment. An empty identifier is refused.
pub fn device_diagnostics_url(base: &str, id: &str) -> (r: Result<String, String>)
    ensures
        id@.len() == 0 ==> (r matches Err(e) && e@ == "device id must not be empty"@),
        id@.len() > 0 ==> match r {
            Ok(u) => url_outcome(base@, diagnostics_segments(id@)) == Ok::<Seq<char>, Seq<char>>(u@),
            Err(e) => url_outcome(base@, diagnostics_segments(id@)) == Err::<Seq<char>, Seq<char>>(e@),
        },
{
    if id.is_empty() {
        return Err(copy_str("device id must not be empty"));
    }
    let mut segments: Vec<String> = Vec::new();
    segments.push(copy_str("api"));
    segments.push(copy_str("v1"));
    segments.push(copy_str("admin"));
    segments.push(copy_str("devices"));
    segments.push(copy_str(id));
    segments.push(copy_str("diagnostics"));
    assert(strings_view(segments@) =~= diagnostics_segments(id@));
    url_joined(base, &segments)
}


/// What the client prints for a response: the body on success (`{}` for a
/// blank body); otherwise, as the error, a JSON object with the body and
/// the status.
pub open spec fn response_output(status: u16, body: Seq<char>) -> Result<Seq<char>, Seq<char>> {
    if !(200 <= status <= 299) {
        Err("{\"body\":"@ + json_quoted(body) + ",\"status\":"@ + decimal(status as nat) + "}"@)
    } else if trim(body).len() == 0 {
        Ok("{}"@)
    } else {
        Ok(body)
    }
}

/// Formats a response for printing.
pub fn format_response_output(status: u16, body: &str) -> (r: Result<String, String>)
    ensures
        match response_output(status, body@) {
            Ok(o) => r matches Ok(x) && x@ == o,
            Err(o) => r matches Err(x) && x@ == o,
        },
{
    if !(200 <= status && status <= 299) {
        let mut m = copy_str("{\"body\":");
        let q = quote_json(body);
        push_str(&mut m, q.as_str());
        push_str(&mut m, ",\"status\":");
        let d = to_decimal(status as u64);
        push_str(&mut m, d.as_str());
        push_str(&mut m, "}");
        return Err(m);
    }
    let v = chars_of(body);
    let (a, b) = trim_bounds(&v, 0, v.len());
    assert(v@.subrange(0, v@.len() as int) =~= v@);
    if a == b {
        Ok(copy_str("{}"))
    } else {
        Ok(copy_str(body))
    }
}

/// A character an HTTP header value may hold: a tab, or anything from the
/// space on except DEL (characters beyond ASCII become bytes above 127).
pub open spec fn header_char_ok(c: char) -> bool {
    c == '\t' || ((c as u32) >= 32 && (c as u32) != 127)
}

/// Whether `s` can be an HTTP header value.
pub fn is_valid_header_value(s: &str) -> (b: bool)
    ensures
        b == forall|i: int| 0 <= i < s@.len() ==> header_char_ok(#[trigger] s@[i]),
{
    let v = chars_of(s);
    let mut i: usize = 0;
    while i < v.len()
        invariant
            i <= v@.len(),
            v@ == s@,
            forall|k: int| 0 <= k < i ==> header_char_ok(#[trigger] v@[k]),
        decreases v.len() - i,
    {
        let c = v[i];
        if !(c == '\t' || ((c as u32) >= 32 && (c as u32) != 127)) {
            return false;
        }
        i = i + 1;
    }
    true
}

/// All characters of `s` may stand in a header value.
pub open spec fn header_ok(s: Seq<char>) -> bool {
    forall|i: int| 0 <= i < s.len() ==> header_char_ok(#[trigger] s[i])
}

/// Characters of an optional string slice.
pub open spec fn opt_chars(o: Option<&str>) -> Option<Seq<char>> {
    match o {
        Some(s) => Some(s@),
        None => None,
    }
}

/// A given API key or tenant cannot stand in a header.
pub open spec fn headers_refused(api_key: Option<Seq<char>>, tenant: Option<Seq<char>>) -> bool {
    (api_key matches Some(k) && !header_ok(k)) || (tenant matches Some(t) && !header_ok(t))
}

/// Default headers of the client, in order.
pub open spec fn default_headers(api_key: Option<Seq<char>>, tenant: Option<Seq<char>>) -> Seq<
    (Seq<char>, Seq<char>),
> {
    seq![("accept"@, "application/json"@)] + (match api_key {
        Some(k) => seq![("x-api-key"@, k)],
        None => Seq::empty(),
    }) + (match tenant {
        Some(t) => seq![("x-tenant-id"@, t)],
        None => Seq::empty(),
    })
}

/// The default headers of the client: `accept: application/json`, then
/// the API key and the tenant when given; a value that cannot stand in a
/// header is refused.
pub fn build_headers(api_key: Option<&str>, tenant: Option<&str>) -> (r: Result<
    Vec<(String, String)>,
    String,
>)
    ensures
        headers_refused(opt_chars(api_key), opt_chars(tenant)) ==> (r matches Err(e) && e@
            == "failed to parse header value"@),
        !headers_refused(opt_chars(api_key), opt_chars(tenant)) ==> (r matches Ok(h)
            && h@.map_values(|p: (String, String)| (p.0@, p.1@)) == default_headers(
            opt_chars(api_key),
            opt_chars(tenant),
        )),
{
    let mut h: Vec<(String, String)> = Vec::new();
    h.push((copy_str("accept"), copy_str("application/json")));
    if let Some(k) = api_key {
        if !is_valid_header_value(k) {
            return Err(copy_str("failed to parse header value"));
        }
        h.push((copy_str("x-api-key"), copy_str(k)));
    }
    if let Some(t) = tenant {
        if !is_valid_header_value(t) {
            return Err(copy_str("failed to parse header value"));
        }
        h.push((copy_str("x-tenant-id"), copy_str(t)));
    }
    assert(h@.map_values(|p: (String, String)| (p.0@, p.1@)) =~= default_headers(
        opt_chars(api_key),
        opt_chars(tenant),
    ));
    Ok(h)
}

/// Name of the text (`Display`) of the error that `String::from_utf8`
/// reports for bytes that are not UTF-8.
pub uninterp spec fn utf8_error_text(bytes: Seq<u8>) -> Seq<char>;

/// Calls `String::from_utf8` on a copy of the bytes. As std documents, it
/// fails exactly when the bytes are not valid UTF-8, and otherwise holds
/// the characters they encode; the error's text is believed to be
/// `utf8_error_text` of the bytes, nothing more.
#[verifier::external_body]
fn utf8_string(bytes: &[u8]) -> (r: Result<String, String>)
    ensures
        match r {
            Ok(t) => vstd::utf8::valid_utf8(bytes@) && t@ == vstd::utf8::decode_utf8(bytes@),
            Err(e) => !vstd::utf8::valid_utf8(bytes@) && e@ == utf8_error_text(bytes@),
        },
{
    String::from_utf8(bytes.to_vec()).map_err(|e| e.to_string())
}

/// The error the client prints for a response: a JSON object with the
/// message as `body` and the status.
pub open spec fn response_failure(status: u16, message: Seq<char>) -> Seq<char> {
    "{\"body\":"@ + json_quoted(message) + ",\"status\":"@ + decimal(status as nat) + "}"@
}

/// What the client prints for a response body: a body that is not UTF-8
/// is an error naming the decoding failure; otherwise as
/// [`format_response_output`].
pub open spec fn body_output(status: u16, body: Seq<u8>) -> Result<Seq<char>, Seq<char>> {
    if !vstd::utf8::valid_utf8(body) {
        Err(response_failure(status, "response body is not valid UTF-8: "@ + utf8_error_text(body)))
    } else {
        response_output(status, vstd::utf8::decode_utf8(body))
    }
}

/// Decides what the client prints for a response with this status and body:
/// `Ok` for standard output, `Err` for standard error (and a failing exit).
pub fn handle_response_body(status: u16, body: &[u8]) -> (r: Result<String, String>)
    ensures
        match body_output(status, body@) {
            Ok(o) => r matches Ok(x) && x@ == o,
            Err(o) => r matches Err(x) && x@ == o,
        },
{
    match utf8_string(body) {
        Ok(text) => format_response_output(status, text.as_str()),
        Err(e) => {
            let mut message = copy_str("response body is not valid UTF-8: ");
            push_str(&mut message, e.as_str());
            let mut m = copy_str("{\"body\":");
            let q = quote_json(message.as_str());
            push_str(&mut m, q.as_str());
            push_str(&mut m, ",\"status\":");
            let d = to_decimal(status as u64);
            push_str(&mut m, d.as_str());
            push_str(&mut m, "}");
            Err(m)
        },
    }
}

} // verus!
