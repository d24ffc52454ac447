//! JSON request bodies: the `Content-Type` rule and the body wrapper.
use crate::api::error::{HttpError, SignalError, SignalErrorKind};
use crate::text::{
    byte_len, byte_len_exceeds, chars_end_with_ignore_case, chars_of, copy_str, ends_with_ci,
    eq_ignore_case, find_char, index_of, range_eq_ignore_case, str_ends_with_ignore_case, trim,
    trim_bounds,
};
use vstd::prelude::*;

verus! {

/// Maximum byte length of the `Content-Type` header accepted by [`JsonBody`].
pub const MAX_CONTENT_TYPE_BYTES: usize = 256;

/// A request body parsed as JSON into `T`.
#[derive(Debug, Clone, Copy, Default)]
pub struct JsonBody<T>(pub T);

/// The media type of a `Content-Type` value: the text before the first `;`,
/// trimmed of whitespace.
pub open spec fn media_type(ct: Seq<char>) -> Seq<char> {
    trim(ct.take(index_of(ct, ';')))
}

/// The part of a media type before its first `/`.
pub open spec fn media_main_type(m: Seq<char>) -> Seq<char> {
    m.take(index_of(m, '/'))
}

/// The part of a media type after its first `/`.
pub open spec fn media_subtype(m: Seq<char>) -> Seq<char> {
    m.skip(index_of(m, '/') + 1)
}

/// `ct` names `application/json` or an `application/<subtype>+json` media
/// type, ignoring ASCII case, and is at most 256 bytes long.
pub open spec fn is_json_media(ct: Seq<char>) -> bool {
    let m = media_type(ct);
    &&& byte_len(ct) <= MAX_CONTENT_TYPE_BYTES
    &&& (eq_ignore_case(m, "application/json"@) || (index_of(m, '/') < m.len() && eq_ignore_case(
        media_main_type(m),
        "application"@,
    ) && (eq_ignore_case(media_subtype(m), "json"@) || ends_with_ci(
        media_subtype(m),
        "+json"@,
    ))))
}

proof fn lemma_json_suffix_len()
    ensures
        byte_len("+json"@) == 5,
{
    reveal_strlit("+json");
    reveal_with_fuel(byte_len, 6);
}

/// Copy of `v[lo..hi]`.
fn chars_range(v: &Vec<char>, lo: usize, hi: usize) -> (r: Vec<char>)
    requires
        lo <= hi <= v.len(),
    ensures
        r@ == v@.subrange(lo as int, hi as int),
{
    let mut r: Vec<char> = Vec::new();
    let mut i = lo;
    while i < hi
        invariant
            lo <= i <= hi <= v.len(),
            r@ == v@.subrange(lo as int, i as int),
        decreases hi - i,
    {
        r.push(v[i]);
        assert(v@.subrange(lo as int, i + 1) =~= v@.subrange(lo as int, i as int).push(v@[i as int]));
        i = i + 1;
    }
    r
}

/// Case-insensitive `str::ends_with`, comparing the last `suffix.len()`
/// bytes, without allocating.
pub fn ends_with_ignore_ascii_case(value: &str, suffix: &str) -> (b: bool)
    requires
        byte_len(suffix@) <= usize::MAX,
    ensures
        b == ends_with_ci(value@, suffix@),
{
    str_ends_with_ignore_case(value, suffix)
}

/// Returns `true` if `content_type` is `application/json` or any
/// `application/<subtype>+json` media type (e.g. `application/vnd.api+json`).
pub fn is_json_content_type(content_type: &str) -> (b: bool)
    ensures
        b == is_json_media(content_type@),
{
    if byte_len_exceeds(content_type, MAX_CONTENT_TYPE_BYTES) {
        return false;
    }
    let v = chars_of(content_type);
    let semi = find_char(&v, 0, v.len(), ';');
    assert(v@.subrange(0, v@.len() as int) =~= v@);
    assert(v@.subrange(0, semi as int) =~= v@.take(index_of(v@, ';')));
    let (a, b) = trim_bounds(&v, 0, semi);
    let ghost m = media_type(content_type@);
    assert(v@.subrange(a as int, b as int) == m);
    if range_eq_ignore_case(&v, a, b, "application/json") {
        return true;
    }
    let slash = find_char(&v, a, b, '/');
    if slash == b {
        return false;
    }
    assert(v@.subrange(a as int, slash as int) =~= media_main_type(m));
    if !range_eq_ignore_case(&v, a, slash, "application") {
        return false;
    }
    assert(v@.subrange(slash + 1, b as int) =~= media_subtype(m));
    if range_eq_ignore_case(&v, slash + 1, b, "json") {
        return true;
    }
    let sub = chars_range(&v, slash + 1, b);
    proof {
        lemma_json_suffix_len();
        assert(sub@.skip(0) =~= sub@);
    }
    chars_end_with_ignore_case(&sub, 0, "+json")
}

impl<T> JsonBody<T> {
    /// Checks the `Content-Type` header of a JSON request: an absent (empty)
    /// header is accepted, any other value must name a JSON media type.
    pub fn check_content_type(content_type: &str) -> (r: Result<(), HttpError>)
        ensures
            r is Ok <==> (content_type@.len() == 0 || is_json_media(content_type@)),
            r matches Err(e) ==> (e matches HttpError::Signal(s) && s.kind
                == SignalErrorKind::InvalidArgument && s.message@
                == "Content-Type must be application/json"@ && s.field_violations@.len() == 0),
    {
        if content_type.is_empty() || is_json_content_type(content_type) {
            Ok(())
        } else {
            Err(
                HttpError::Signal(
                    SignalError::new(
                        SignalErrorKind::InvalidArgument,
                        copy_str("Content-Type must be application/json"),
                    ),
                ),
            )
        }
    }
}

} // verus!
