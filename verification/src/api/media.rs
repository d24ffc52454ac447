//! Which kind of media session a creation request asks for.
use crate::api::error::{HttpError, SignalError, SignalErrorKind};
use crate::text::{chars_of, copy_str};
use vstd::prelude::*;

verus! {

/// Purpose of a media session.
#[derive(Clone, Copy, Debug, PartialEq, Eq, Structural)]
pub enum MediaPurpose {
    /// Live view.
    Live,
    /// Playback of recordings.
    Playback,
    /// Two-way audio.
    Talk,
}

/// The character lowercases (as `str::to_lowercase` does) to the ASCII
/// letter `t`: it is `t`, its capital, or, for `k`, the Kelvin sign, the one
/// other character whose lowercase is an ASCII letter.
pub open spec fn lowers_to(c: char, t: char) -> bool {
    ||| c == t
    ||| ('a' <= t <= 'z' && c as u32 == t as u32 - 32)
    ||| (t == 'k' && c == '\u{212A}')
}

/// The lowercase of `s` is the lowercase ASCII word `w`.
pub open spec fn lowercases_to(s: Seq<char>, w: Seq<char>) -> bool {
    s.len() == w.len() && forall|i: int| 0 <= i < s.len() ==> lowers_to(#[trigger] s[i], w[i])
}

/// The purpose named by the request's `purpose` member, compared in
/// lowercase; `live` when the member is absent or not a string.
pub open spec fn purpose_named(p: Option<Seq<char>>) -> Option<MediaPurpose> {
    match p {
        None => Some(MediaPurpose::Live),
        Some(s) => if lowercases_to(s, "live"@) {
            Some(MediaPurpose::Live)
        } else if lowercases_to(s, "playback"@) {
            Some(MediaPurpose::Playback)
        } else if lowercases_to(s, "talk"@) {
            Some(MediaPurpose::Talk)
        } else {
            None
        },
    }
}

pub(crate) fn lowercase_is(s: &str, w: &str) -> (b: bool)
    requires
        forall|i: int| 0 <= i < w@.len() ==> 'a' <= #[trigger] w@[i] <= 'z',
    ensures
        b == lowercases_to(s@, w@),
{
    let v = chars_of(s);
    let t = chars_of(w);
    if v.len() != t.len() {
        return false;
    }
    let mut i: usize = 0;
    while i < v.len()
        invariant
            v@ == s@,
            t@ == w@,
            v.len() == t.len(),
            i <= v.len(),
            forall|j: int| 0 <= j < t@.len() ==> 'a' <= #[trigger] t@[j] <= 'z',
            forall|j: int| 0 <= j < i ==> lowers_to(#[trigger] v@[j], t@[j]),
        decreases v.len() - i,
    {
        let c = v[i];
        let l = t[i];
        assert('a' <= t@[i as int] <= 'z');
        let ok = c == l || (c as u32) == (l as u32) - 32 || (l == 'k' && c == '\u{212A}');
        if !ok {
            assert(!lowers_to(v@[i as int], t@[i as int]));
            return false;
        }
        i = i + 1;
    }
    true
}

/// Reads the purpose of a media session creation request (`None` when the
/// body has no `purpose` string); an unknown purpose is refused.
pub fn media_purpose(purpose: Option<&str>) -> (r: Result<MediaPurpose, HttpError>)
    ensures
        match purpose_named(
            match purpose {
                Some(p) => Some(p@),
                None => None,
            },
        ) {
            Some(m) => r == Ok::<MediaPurpose, HttpError>(m),
            None => r matches Err(HttpError::Signal(e)) && e.kind == SignalErrorKind::InvalidArgument
                && e.message@ == "unsupported media purpose"@,
        },
{
    proof {
        reveal_strlit("live");
        reveal_strlit("playback");
        reveal_strlit("talk");
    }
    match purpose {
        None => Ok(MediaPurpose::Live),
        Some(p) => if lowercase_is(p, "live") {
            Ok(MediaPurpose::Live)
        } else if lowercase_is(p, "playback") {
            Ok(MediaPurpose::Playback)
        } else if lowercase_is(p, "talk") {
            Ok(MediaPurpose::Talk)
        } else {
            Err(
                HttpError::Signal(
                    SignalError::new(SignalErrorKind::InvalidArgument, copy_str("unsupported media purpose")),
                ),
            )
        },
    }
}

} // verus!
