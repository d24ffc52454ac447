//! Character-level string helpers with exact specifications.
//!
//! Strings are viewed as sequences of Unicode scalar values (`Seq<char>`).
//! Byte lengths are the lengths of the UTF-8 encodings, which is what
//! `str::len` reports.
use vstd::prelude::*;
use vstd::utf8::*;

verus! {

broadcast use vstd::utf8::char_is_scalar;

/// Number of bytes in the UTF-8 encoding of `c`.
pub open spec fn char_width(c: char) -> nat {
    if (c as u32) <= 0x7f {
        1
    } else if (c as u32) <= 0x7ff {
        2
    } else if (c as u32) <= 0xffff {
        3
    } else {
        4
    }
}

/// Number of bytes in the UTF-8 encoding of `s`.
pub open spec fn byte_len(s: Seq<char>) -> nat
    decreases s.len(),
{
    if s.len() == 0 {
        0
    } else {
        char_width(s[0]) + byte_len(s.drop_first())
    }
}

/// The UTF-8 encoding of `s` has exactly `byte_len(s)` bytes.
pub proof fn lemma_encode_len(s: Seq<char>)
    ensures
        encode_utf8(s).len() == byte_len(s),
    decreases s.len(),
{
    if s.len() > 0 {
        let c = s[0];
        let v = c as u32;
        char_is_scalar(c);
        assert(is_scalar(v));
        assert(encode_scalar(v).len() == char_width(c));
        lemma_encode_len(s.drop_first());
    }
}

/// Byte length is additive over concatenation.
pub proof fn lemma_byte_len_concat(s: Seq<char>, t: Seq<char>)
    ensures
        byte_len(s + t) == byte_len(s) + byte_len(t),
    decreases s.len(),
{
    if s.len() == 0 {
        assert(s + t =~= t);
    } else {
        assert((s + t).drop_first() =~= s.drop_first() + t);
        lemma_byte_len_concat(s.drop_first(), t);
    }
}

/// Byte length of a sequence extended by one character.
pub proof fn lemma_byte_len_push(s: Seq<char>, c: char)
    ensures
        byte_len(s.push(c)) == byte_len(s) + char_width(c),
{
    assert(s.push(c) =~= s + seq![c]);
    lemma_byte_len_concat(s, seq![c]);
    assert(seq![c].drop_first() =~= Seq::<char>::empty());
    assert(byte_len(Seq::<char>::empty()) == 0);
    assert(byte_len(seq![c]) == char_width(c) + byte_len(seq![c].drop_first()));
}

/// A prefix is never longer in bytes than the whole.
pub proof fn lemma_byte_len_prefix(s: Seq<char>, i: int)
    requires
        0 <= i <= s.len(),
    ensures
        byte_len(s.take(i)) <= byte_len(s),
{
    assert(s =~= s.take(i) + s.skip(i));
    lemma_byte_len_concat(s.take(i), s.skip(i));
}

/// Whether the UTF-8 encoding of `s` is longer than `limit` bytes.
pub fn byte_len_exceeds(s: &str, limit: usize) -> (b: bool)
    ensures
        b == (byte_len(s@) > limit),
{
    let v = chars_of(s);
    let mut acc: usize = 0;
    let mut i: usize = 0;
    while i < v.len()
        invariant
            v@ == s@,
            i <= v.len(),
            acc == byte_len(v@.take(i as int)),
            acc <= limit,
        decreases v.len() - i,
    {
        let w = char_byte_width(v[i]);
        proof {
            assert(v@.take(i + 1) =~= v@.take(i as int).push(v@[i as int]));
            lemma_byte_len_push(v@.take(i as int), v@[i as int]);
        }
        if w > limit - acc {
            proof {
                lemma_byte_len_prefix(v@, i + 1);
            }
            return true;
        }
        acc = acc + w;
        i = i + 1;
    }
    assert(v@.take(i as int) =~= v@);
    false
}

/// Number of bytes in the UTF-8 encoding of `c`.
pub fn char_byte_width(c: char) -> (n: usize)
    ensures
        n == char_width(c),
{
    let v = c as u32;
    if v <= 0x7f {
        1
    } else if v <= 0x7ff {
        2
    } else if v <= 0xffff {
        3
    } else {
        4
    }
}

/// Appends one character to a `String`.
#[verifier::external_body]
pub(crate) fn push_char(s: &mut String, c: char)
    ensures
        final(s)@ == old(s)@.push(c),
{
    s.push(c);
}

/// Returns the characters of `s` in order.
pub fn chars_of(s: &str) -> (v: Vec<char>)
    ensures
        v@ == s@,
{
    let mut v: Vec<char> = Vec::new();
    for c in iter: s.chars()
        invariant
            v@ == iter.seq().take(iter.index() as int),
    {
        v.push(c);
    }
    v
}

/// Builds a `String` from the characters `v[lo..hi]`.
pub fn string_from_range(v: &Vec<char>, lo: usize, hi: usize) -> (s: String)
    requires
        lo <= hi <= v.len(),
    ensures
        s@ == v@.subrange(lo as int, hi as int),
{
    let mut s = String::new();
    let mut i = lo;
    while i < hi
        invariant
            lo <= i <= hi <= v.len(),
            s@ == v@.subrange(lo as int, i as int),
        decreases hi - i,
    {
        push_char(&mut s, v[i]);
        assert(v@.subrange(lo as int, i + 1) =~= v@.subrange(lo as int, i as int).push(v@[i as int]));
        i = i + 1;
    }
    s
}

/// Appends the characters of `t` to `s`.
pub fn push_str(s: &mut String, t: &str)
    ensures
        final(s)@ == old(s)@ + t@,
{
    let v = chars_of(t);
    let ghost s0 = s@;
    let mut i: usize = 0;
    while i < v.len()
        invariant
            i <= v.len(),
            v@ == t@,
            s@ == s0 + v@.take(i as int),
        decreases v.len() - i,
    {
        push_char(s, v[i]);
        assert(v@.take(i + 1) =~= v@.take(i as int).push(v@[i as int]));
        i = i + 1;
    }
    assert(v@.take(v.len() as int) =~= v@);
}

/// Copy of a string with the same characters.
pub fn copy_str(t: &str) -> (s: String)
    ensures
        s@ == t@,
{
    let mut s = String::new();
    push_str(&mut s, t);
    assert(Seq::<char>::empty() + t@ =~= t@);
    s
}

/// Unicode `White_Space` property, as used by `char::is_whitespace`.
pub open spec fn is_ws(c: char) -> bool {
    let v = c as u32;
    (0x9 <= v <= 0xd) || v == 0x20 || v == 0x85 || v == 0xa0 || v == 0x1680 || (0x2000 <= v
        <= 0x200a) || v == 0x2028 || v == 0x2029 || v == 0x202f || v == 0x205f || v == 0x3000
}

/// Executable `White_Space` test.
pub fn is_whitespace(c: char) -> (b: bool)
    ensures
        b == is_ws(c),
{
    let v = c as u32;
    (0x9 <= v && v <= 0xd) || v == 0x20 || v == 0x85 || v == 0xa0 || v == 0x1680 || (0x2000 <= v
        && v <= 0x200a) || v == 0x2028 || v == 0x2029 || v == 0x202f || v == 0x205f || v == 0x3000
}

/// Index of the first non-whitespace character (or `s.len()`).
pub open spec fn trim_start_index(s: Seq<char>) -> int
    decreases s.len(),
{
    if s.len() == 0 || !is_ws(s[0]) {
        0
    } else {
        1 + trim_start_index(s.drop_first())
    }
}

/// Index one past the last non-whitespace character (or 0).
pub open spec fn trim_end_index(s: Seq<char>) -> int
    decreases s.len(),
{
    if s.len() == 0 || !is_ws(s.last()) {
        s.len() as int
    } else {
        trim_end_index(s.drop_last())
    }
}

/// `s` without leading and trailing whitespace, as `str::trim` returns.
pub open spec fn trim(s: Seq<char>) -> Seq<char> {
    let t = s.skip(trim_start_index(s));
    t.take(trim_end_index(t))
}

proof fn lemma_trim_start_index_bounds(s: Seq<char>)
    ensures
        0 <= trim_start_index(s) <= s.len(),
        forall|k: int| 0 <= k < trim_start_index(s) ==> is_ws(#[trigger] s[k]),
        trim_start_index(s) < s.len() ==> !is_ws(s[trim_start_index(s)]),
    decreases s.len(),
{
    if s.len() > 0 && is_ws(s[0]) {
        lemma_trim_start_index_bounds(s.drop_first());
        assert forall|k: int| 0 <= k < trim_start_index(s) implies is_ws(#[trigger] s[k]) by {
            if k > 0 {
                assert(s[k] == s.drop_first()[k - 1]);
            }
        }
    }
}

proof fn lemma_trim_start_unique(s: Seq<char>, i: int)
    requires
        0 <= i <= s.len(),
        forall|k: int| 0 <= k < i ==> is_ws(#[trigger] s[k]),
        i < s.len() ==> !is_ws(s[i]),
    ensures
        trim_start_index(s) == i,
    decreases s.len(),
{
    if i > 0 {
        assert(is_ws(s[0]));
        assert forall|k: int| 0 <= k < i - 1 implies is_ws(#[trigger] s.drop_first()[k]) by {
            assert(s.drop_first()[k] == s[k + 1]);
        }
        lemma_trim_start_unique(s.drop_first(), i - 1);
    }
}

proof fn lemma_trim_end_unique(s: Seq<char>, j: int)
    requires
        0 <= j <= s.len(),
        forall|k: int| j <= k < s.len() ==> is_ws(#[trigger] s[k]),
        j > 0 ==> !is_ws(s[j - 1]),
    ensures
        trim_end_index(s) == j,
    decreases s.len(),
{
    if j < s.len() {
        assert(is_ws(s.last()));
        assert forall|k: int| j <= k < s.drop_last().len() implies is_ws(
            #[trigger] s.drop_last()[k],
        ) by {
            assert(s.drop_last()[k] == s[k]);
        }
        lemma_trim_end_unique(s.drop_last(), j);
    }
}

/// Returns the characters `v[lo..hi]` trimmed of whitespace, as bounds.
pub fn trim_bounds(v: &Vec<char>, lo: usize, hi: usize) -> (r: (usize, usize))
    requires
        lo <= hi <= v.len(),
    ensures
        lo <= r.0 <= r.1 <= hi,
        v@.subrange(r.0 as int, r.1 as int) == trim(v@.subrange(lo as int, hi as int)),
{
    let ghost s = v@.subrange(lo as int, hi as int);
    let mut a = lo;
    while a < hi && is_whitespace(v[a])
        invariant
            lo <= a <= hi <= v.len(),
            forall|k: int| lo <= k < a ==> is_ws(#[trigger] v@[k]),
        decreases hi - a,
    {
        a = a + 1;
    }
    let mut b = hi;
    while b > a && is_whitespace(v[b - 1])
        invariant
            lo <= a <= b <= hi <= v.len(),
            forall|k: int| b <= k < hi ==> is_ws(#[trigger] v@[k]),
        decreases b - a,
    {
        b = b - 1;
    }
    proof {
        assert forall|k: int| 0 <= k < a - lo implies is_ws(#[trigger] s[k]) by {
            assert(s[k] == v@[lo + k]);
        }
        if a < hi {
            assert(s[a - lo] == v@[a as int]);
        }
        lemma_trim_start_unique(s, a - lo);
        let t = s.skip(a - lo);
        assert forall|k: int| b - a <= k < t.len() implies is_ws(#[trigger] t[k]) by {
            assert(t[k] == v@[a + k]);
        }
        if b > a {
            assert(t[b - a - 1] == v@[b - 1]);
        }
        lemma_trim_end_unique(t, b - a);
        assert(t.take(b - a) =~= v@.subrange(a as int, b as int));
    }
    (a, b)
}

/// ASCII lower-casing of one character; other characters are unchanged.
pub open spec fn ascii_lower(c: char) -> char {
    if 'A' <= c <= 'Z' {
        ((c as u32) + 32) as char
    } else {
        c
    }
}

/// Executable ASCII lower-casing.
pub fn to_ascii_lower(c: char) -> (r: char)
    ensures
        r == ascii_lower(c),
{
    if 'A' <= c && c <= 'Z' {
        ((c as u8) + 32) as char
    } else {
        c
    }
}

/// Case-insensitive ASCII equality of two character sequences
/// (`str::eq_ignore_ascii_case`).
pub open spec fn eq_ignore_case(a: Seq<char>, b: Seq<char>) -> bool {
    a.len() == b.len() && forall|i: int| 0 <= i < a.len() ==> ascii_lower(#[trigger] a[i])
        == ascii_lower(b[i])
}

/// Compares `v[lo..hi]` with `t` ignoring ASCII case.
pub fn range_eq_ignore_case(v: &Vec<char>, lo: usize, hi: usize, t: &str) -> (b: bool)
    requires
        lo <= hi <= v.len(),
    ensures
        b == eq_ignore_case(v@.subrange(lo as int, hi as int), t@),
{
    let tv = chars_of(t);
    if hi - lo != tv.len() {
        return false;
    }
    let mut i: usize = 0;
    while i < tv.len()
        invariant
            lo <= hi <= v.len(),
            hi - lo == tv.len(),
            tv@ == t@,
            i <= tv.len(),
            forall|k: int| 0 <= k < i ==> ascii_lower(#[trigger] v@[lo + k]) == ascii_lower(tv@[k]),
        decreases tv.len() - i,
    {
        if to_ascii_lower(v[lo + i]) != to_ascii_lower(tv[i]) {
            assert(v@.subrange(lo as int, hi as int)[i as int] == v@[lo + i]);
            return false;
        }
        i = i + 1;
    }
    proof {
        let s = v@.subrange(lo as int, hi as int);
        assert forall|k: int| 0 <= k < s.len() implies ascii_lower(#[trigger] s[k]) == ascii_lower(
            t@[k],
        ) by {
            assert(s[k] == v@[lo + k]);
        }
    }
    true
}

/// Case-insensitive ASCII equality of two strings.
pub fn str_eq_ignore_case(a: &str, b: &str) -> (r: bool)
    ensures
        r == eq_ignore_case(a@, b@),
{
    let v = chars_of(a);
    let r = range_eq_ignore_case(&v, 0, v.len(), b);
    assert(v@.subrange(0, v@.len() as int) =~= a@);
    r
}

/// Exact equality of two strings.
pub fn str_eq(a: &str, b: &str) -> (r: bool)
    ensures
        r == (a@ == b@),
{
    let v = chars_of(a);
    let w = chars_of(b);
    if v.len() != w.len() {
        return false;
    }
    let mut i: usize = 0;
    while i < v.len()
        invariant
            v@ == a@,
            w@ == b@,
            v.len() == w.len(),
            i <= v.len(),
            forall|k: int| 0 <= k < i ==> v@[k] == w@[k],
        decreases v.len() - i,
    {
        if v[i] != w[i] {
            return false;
        }
        i = i + 1;
    }
    assert(v@ =~= w@);
    true
}

/// `p` is a prefix of `s`.
pub open spec fn has_prefix(s: Seq<char>, p: Seq<char>) -> bool {
    p.len() <= s.len() && s.take(p.len() as int) == p
}

/// Whether `s` begins with `p`.
pub fn starts_with(s: &str, p: &str) -> (r: bool)
    ensures
        r == has_prefix(s@, p@),
{
    let v = chars_of(s);
    let w = chars_of(p);
    if w.len() > v.len() {
        return false;
    }
    let mut i: usize = 0;
    while i < w.len()
        invariant
            v@ == s@,
            w@ == p@,
            w.len() <= v.len(),
            i <= w.len(),
            forall|k: int| 0 <= k < i ==> v@[k] == w@[k],
        decreases w.len() - i,
    {
        if v[i] != w[i] {
            assert(v@.take(w.len() as int)[i as int] != w@[i as int]);
            return false;
        }
        i = i + 1;
    }
    assert(v@.take(w.len() as int) =~= w@);
    true
}

/// Decimal value of a character sequence made of ASCII digits.
pub open spec fn digits_value(s: Seq<char>) -> nat
    decreases s.len(),
{
    if s.len() == 0 {
        0
    } else {
        digits_value(s.drop_last()) * 10 + ((s.last() as u32) - ('0' as u32)) as nat
    }
}

/// All characters are ASCII digits.
pub open spec fn all_digits(s: Seq<char>) -> bool {
    forall|i: int| 0 <= i < s.len() ==> '0' <= #[trigger] s[i] <= '9'
}

/// The unsigned integer that `str::parse` reads from `s` when it fits in `max`:
/// an optional `+`, then one or more ASCII digits, and nothing else.
pub open spec fn parse_unsigned(s: Seq<char>, max: nat) -> Option<nat> {
    let d = if s.len() > 0 && s[0] == '+' {
        s.drop_first()
    } else {
        s
    };
    if d.len() == 0 || !all_digits(d) || digits_value(d) > max {
        None
    } else {
        Some(digits_value(d))
    }
}

proof fn lemma_digits_value_prefix_mono(s: Seq<char>, i: int)
    requires
        0 <= i <= s.len(),
        all_digits(s),
    ensures
        digits_value(s.take(i)) <= digits_value(s),
    decreases s.len() - i,
{
    if i < s.len() {
        assert(s.take(i + 1).drop_last() =~= s.take(i));
        assert(s.take(i + 1).last() == s[i]);
        lemma_digits_value_prefix_mono(s, i + 1);
    } else {
        assert(s.take(i) =~= s);
    }
}

/// Parses an unsigned decimal integer of at most `max`, as `str::parse` does
/// for unsigned integer types whose maximum is `max`.
pub fn parse_unsigned_str(s: &str, max: u64) -> (r: Option<u64>)
    ensures
        r matches Some(n) ==> parse_unsigned(s@, max as nat) == Some(n as nat),
        r is None ==> parse_unsigned(s@, max as nat) is None,
{
    let v = chars_of(s);
    let start: usize = if v.len() > 0 && v[0] == '+' {
        1
    } else {
        0
    };
    let ghost d = if s@.len() > 0 && s@[0] == '+' {
        s@.drop_first()
    } else {
        s@
    };
    assert(d =~= v@.subrange(start as int, v@.len() as int));
    if start == v.len() {
        return None;
    }
    let mut acc: u64 = 0;
    let mut i = start;
    while i < v.len()
        invariant
            v@ == s@,
            start <= i <= v.len(),
            d =~= v@.subrange(start as int, v@.len() as int),
            d == (if s@.len() > 0 && s@[0] == '+' {
                s@.drop_first()
            } else {
                s@
            }),
            all_digits(d.take(i - start)),
            acc as nat == digits_value(d.take(i - start)),
            acc <= max,
        decreases v.len() - i,
    {
        let c = v[i];
        if c < '0' || c > '9' {
            assert(d[i - start] == c);
            assert(!all_digits(d));
            assert(parse_unsigned(s@, max as nat) is None);
            return None;
        }
        let digit = (c as u32 - '0' as u32) as u64;
        assert(d.take(i + 1 - start).drop_last() =~= d.take(i - start));
        assert(d.take(i + 1 - start).last() == c);
        if digit > max || acc > (max - digit) / 10 {
            proof {
                if digit <= max {
                    assert(acc * 10 + digit > max) by (nonlinear_arith)
                        requires
                            acc > (max - digit) / 10,
                            digit <= max,
                    ;
                }
                let t = d.take(i + 1 - start);
                assert(digits_value(t) == digits_value(t.drop_last()) * 10 + ((t.last() as u32) - ('0' as u32)) as nat);
                assert(digits_value(t) > max);
                if all_digits(d) {
                    lemma_digits_value_prefix_mono(d, i + 1 - start);
                }
                assert(parse_unsigned(s@, max as nat) is None);
            }
            return None;
        }
        acc = acc * 10 + digit;
        i = i + 1;
    }
    assert(d.take(i - start) =~= d);
    Some(acc)
}

/// Index of the first occurrence of `c` in `s`, or `s.len()` when absent.
pub open spec fn index_of(s: Seq<char>, c: char) -> int
    decreases s.len(),
{
    if s.len() == 0 || s[0] == c {
        0
    } else {
        1 + index_of(s.drop_first(), c)
    }
}

/// `index_of` is characterised by its defining properties.
pub proof fn lemma_index_of_unique(s: Seq<char>, c: char, i: int)
    requires
        0 <= i <= s.len(),
        forall|k: int| 0 <= k < i ==> #[trigger] s[k] != c,
        i < s.len() ==> s[i] == c,
    ensures
        index_of(s, c) == i,
    decreases s.len(),
{
    if i > 0 {
        assert(s[0] != c);
        assert forall|k: int| 0 <= k < i - 1 implies #[trigger] s.drop_first()[k] != c by {
            assert(s.drop_first()[k] == s[k + 1]);
        }
        lemma_index_of_unique(s.drop_first(), c, i - 1);
    }
}

/// Properties of `index_of`.
pub proof fn lemma_index_of_props(s: Seq<char>, c: char)
    ensures
        0 <= index_of(s, c) <= s.len(),
        forall|k: int| 0 <= k < index_of(s, c) ==> #[trigger] s[k] != c,
        index_of(s, c) < s.len() ==> s[index_of(s, c)] == c,
    decreases s.len(),
{
    if s.len() > 0 && s[0] != c {
        lemma_index_of_props(s.drop_first(), c);
        assert forall|k: int| 0 <= k < index_of(s, c) implies #[trigger] s[k] != c by {
            if k > 0 {
                assert(s[k] == s.drop_first()[k - 1]);
            }
        }
    }
}

/// Position of the first `c` in `v[lo..hi]`, or `hi` when absent.
pub fn find_char(v: &Vec<char>, lo: usize, hi: usize, c: char) -> (r: usize)
    requires
        lo <= hi <= v.len(),
    ensures
        lo <= r <= hi,
        r - lo == index_of(v@.subrange(lo as int, hi as int), c),
{
    let mut i = lo;
    while i < hi && v[i] != c
        invariant
            lo <= i <= hi <= v.len(),
            forall|k: int| lo <= k < i ==> #[trigger] v@[k] != c,
        decreases hi - i,
    {
        i = i + 1;
    }
    proof {
        let s = v@.subrange(lo as int, hi as int);
        assert forall|k: int| 0 <= k < i - lo implies #[trigger] s[k] != c by {
            assert(s[k] == v@[lo + k]);
        }
        if i < hi {
            assert(s[i - lo] == v@[i as int]);
        }
        lemma_index_of_unique(s, c, i - lo);
    }
    i
}

/// The byte length of a suffix is the width of its first character plus the rest.
pub proof fn lemma_byte_len_skip(s: Seq<char>, k: int)
    requires
        0 <= k < s.len(),
    ensures
        byte_len(s.skip(k)) == char_width(s[k]) + byte_len(s.skip(k + 1)),
{
    assert(s.skip(k).drop_first() =~= s.skip(k + 1));
}

/// Suffix byte lengths strictly decrease as the start moves right.
pub proof fn lemma_byte_len_skip_mono(s: Seq<char>, j1: int, j2: int)
    requires
        0 <= j1 < j2 <= s.len(),
    ensures
        byte_len(s.skip(j1)) > byte_len(s.skip(j2)),
    decreases j2 - j1,
{
    lemma_byte_len_skip(s, j1);
    if j1 + 1 < j2 {
        lemma_byte_len_skip_mono(s, j1 + 1, j2);
    }
}

/// `value` ends with `suffix` ignoring ASCII case, comparing the last
/// `byte_len(suffix)` bytes of `value`.
pub open spec fn ends_with_ci(value: Seq<char>, suffix: Seq<char>) -> bool {
    exists|j: int|
        0 <= j <= value.len() && #[trigger] byte_len(value.skip(j)) == byte_len(suffix)
            && eq_ignore_case(value.skip(j), suffix)
}

/// Whether `v[lo..]` ends with `suffix` ignoring ASCII case, comparing bytes.
pub fn chars_end_with_ignore_case(v: &Vec<char>, lo: usize, suffix: &str) -> (b: bool)
    requires
        lo <= v.len(),
        byte_len(suffix@) <= usize::MAX,
    ensures
        b == ends_with_ci(v@.skip(lo as int), suffix@),
{
    let ghost s = v@.skip(lo as int);
    let sv = chars_of(suffix);
    let mut n: usize = 0;
    let mut k: usize = 0;
    while k < sv.len()
        invariant
            sv@ == suffix@,
            k <= sv.len(),
            n == byte_len(sv@.take(k as int)),
            byte_len(suffix@) <= usize::MAX,
        decreases sv.len() - k,
    {
        proof {
            assert(sv@.take(k + 1) =~= sv@.take(k as int).push(sv@[k as int]));
            lemma_byte_len_push(sv@.take(k as int), sv@[k as int]);
            lemma_byte_len_prefix(sv@, k + 1);
        }
        n = n + char_byte_width(sv[k]);
        k = k + 1;
    }
    assert(sv@.take(k as int) =~= sv@);
    let mut j = v.len();
    let mut acc: usize = 0;
    assert(s.skip(s.len() as int) =~= Seq::<char>::empty());
    while j > lo && acc < n
        invariant
            lo <= j <= v.len(),
            s == v@.skip(lo as int),
            acc == byte_len(s.skip(j - lo)),
            acc <= n,
            n == byte_len(suffix@),
        decreases j - lo,
    {
        let w = char_byte_width(v[j - 1]);
        proof {
            assert(s[j - 1 - lo] == v@[j - 1]);
            lemma_byte_len_skip(s, j - 1 - lo);
        }
        if w > n - acc {
            proof {
                assert forall|i: int| 0 <= i <= s.len() implies #[trigger] byte_len(s.skip(i))
                    != n by {
                    if i < j - 1 - lo {
                        lemma_byte_len_skip_mono(s, i, j - 1 - lo);
                    } else if i > j - lo {
                        lemma_byte_len_skip_mono(s, j - lo, i);
                    }
                }
            }
            return false;
        }
        acc = acc + w;
        j = j - 1;
    }
    if acc < n {
        assert(s.skip(0) =~= s);
        proof {
            assert forall|i: int| 0 <= i <= s.len() implies #[trigger] byte_len(s.skip(i)) != n by {
                if i > 0 {
                    lemma_byte_len_skip_mono(s, 0, i);
                }
            }
        }
        return false;
    }
    let r = range_eq_ignore_case(v, j, v.len(), suffix);
    proof {
        assert(v@.subrange(j as int, v@.len() as int) =~= s.skip(j - lo));
        if !r {
            assert forall|i: int| 0 <= i <= s.len() && #[trigger] byte_len(s.skip(i)) == n
                implies i == j - lo by {
                if i < j - lo {
                    lemma_byte_len_skip_mono(s, i, j - lo);
                } else if i > j - lo {
                    lemma_byte_len_skip_mono(s, j - lo, i);
                }
            }
        }
    }
    r
}

/// Whether `value` ends with `suffix` ignoring ASCII case, comparing the
/// last `byte_len(suffix)` bytes; reads both strings in place.
pub fn str_ends_with_ignore_case(value: &str, suffix: &str) -> (b: bool)
    requires
        byte_len(suffix@) <= usize::MAX,
    ensures
        b == ends_with_ci(value@, suffix@),
{
    let ghost s = value@;
    let m = suffix.unicode_len();
    let mut n: usize = 0;
    let mut k: usize = 0;
    while k < m
        invariant
            m == suffix@.len(),
            k <= m,
            n == byte_len(suffix@.take(k as int)),
            byte_len(suffix@) <= usize::MAX,
        decreases m - k,
    {
        let c = suffix.get_char(k);
        proof {
            assert(suffix@.take(k + 1) =~= suffix@.take(k as int).push(suffix@[k as int]));
            lemma_byte_len_push(suffix@.take(k as int), suffix@[k as int]);
            lemma_byte_len_prefix(suffix@, k + 1);
        }
        n = n + char_byte_width(c);
        k = k + 1;
    }
    assert(suffix@.take(k as int) =~= suffix@);
    let len = value.unicode_len();
    let mut j = len;
    let mut acc: usize = 0;
    assert(s.skip(s.len() as int) =~= Seq::<char>::empty());
    while j > 0 && acc < n
        invariant
            j <= len,
            len == s.len(),
            s == value@,
            acc == byte_len(s.skip(j as int)),
            acc <= n,
            n == byte_len(suffix@),
            m == suffix@.len(),
        decreases j,
    {
        let w = char_byte_width(value.get_char(j - 1));
        proof {
            lemma_byte_len_skip(s, j - 1);
        }
        if w > n - acc {
            proof {
                assert forall|i: int| 0 <= i <= s.len() implies #[trigger] byte_len(s.skip(i))
                    != n by {
                    if i < j - 1 {
                        lemma_byte_len_skip_mono(s, i, j - 1);
                    } else if i > j {
                        lemma_byte_len_skip_mono(s, j as int, i);
                    }
                }
            }
            return false;
        }
        acc = acc + w;
        j = j - 1;
    }
    if acc < n {
        assert(s.skip(0) =~= s);
        proof {
            assert forall|i: int| 0 <= i <= s.len() implies #[trigger] byte_len(s.skip(i)) != n by {
                if i > 0 {
                    lemma_byte_len_skip_mono(s, 0, i);
                }
            }
        }
        return false;
    }
    proof {
        assert forall|i: int| 0 <= i <= s.len() && #[trigger] byte_len(s.skip(i)) == n
            implies i == j by {
            if i < j {
                lemma_byte_len_skip_mono(s, i, j as int);
            } else if i > j {
                lemma_byte_len_skip_mono(s, j as int, i);
            }
        }
    }
    if len - j != m {
        return false;
    }
    let mut t: usize = 0;
    while t < m
        invariant
            j + m == len,
            len == s.len(),
            s == value@,
            m == suffix@.len(),
            t <= m,
            forall|q: int| 0 <= q < t ==> ascii_lower(#[trigger] s.skip(j as int)[q]) == ascii_lower(
                suffix@[q],
            ),
        decreases m - t,
    {
        let a = value.get_char(j + t);
        let c = suffix.get_char(t);
        assert(s.skip(j as int)[t as int] == a);
        if to_ascii_lower(a) != to_ascii_lower(c) {
            return false;
        }
        t = t + 1;
    }
    true
}

/// The characters of each string of a sequence.
pub open spec fn strings_view(v: Seq<String>) -> Seq<Seq<char>> {
    v.map_values(|s: String| s@)
}

/// `names` joined with `sep` between consecutive names.
pub open spec fn join(names: Seq<Seq<char>>, sep: Seq<char>) -> Seq<char>
    decreases names.len(),
{
    if names.len() == 0 {
        Seq::empty()
    } else if names.len() == 1 {
        names[0]
    } else {
        join(names.drop_last(), sep) + sep + names.last()
    }
}

/// Joins the strings of `v` with `sep`, as `[String]::join` does.
pub fn join_strings(v: &Vec<String>, sep: &str) -> (s: String)
    ensures
        s@ == join(strings_view(v@), sep@),
{
    let mut s = String::new();
    let mut i: usize = 0;
    while i < v.len()
        invariant
            i <= v@.len(),
            s@ == join(strings_view(v@).take(i as int), sep@),
        decreases v.len() - i,
    {
        let ghost before = s@;
        assert(strings_view(v@).take(i + 1).drop_last() =~= strings_view(v@).take(i as int));
        if i > 0 {
            push_str(&mut s, sep);
        }
        push_str(&mut s, v[i].as_str());
        proof {
            if i == 0 {
                assert(before =~= Seq::<char>::empty());
                assert(s@ =~= v@[0]@);
            }
        }
        i = i + 1;
    }
    assert(strings_view(v@).take(i as int) =~= strings_view(v@));
    s
}

/// Decimal digit character of `d < 10`.
pub open spec fn digit_char(d: nat) -> char {
    ((d + 48) as u32) as char
}

/// Decimal rendering of `n`, as `to_string` gives it for unsigned integers.
pub open spec fn decimal(n: nat) -> Seq<char>
    decreases n,
{
    if n < 10 {
        seq![digit_char(n)]
    } else {
        decimal(n / 10).push(digit_char(n % 10))
    }
}

/// Decimal rendering of `n`.
pub fn to_decimal(n: u64) -> (s: String)
    ensures
        s@ == decimal(n as nat),
    decreases n,
{
    if n < 10 {
        let mut s = String::new();
        push_char(&mut s, ((n as u8) + 48) as char);
        assert(s@ =~= seq![digit_char(n as nat)]);
        s
    } else {
        let mut s = to_decimal(n / 10);
        push_char(&mut s, (((n % 10) as u8) + 48) as char);
        s
    }
}

/// The pieces of `s` between occurrences of `sep`, as `str::split` yields them.
pub open spec fn split_pieces(s: Seq<char>, sep: char) -> Seq<Seq<char>>
    decreases s.len(),
{
    let i = index_of(s, sep);
    if i < 0 || i >= s.len() {
        seq![s]
    } else {
        seq![s.take(i)] + split_pieces(s.skip(i + 1), sep)
    }
}

/// One step of splitting: the piece up to the separator, then the rest.
pub proof fn lemma_split_step(s: Seq<char>, sep: char, st: int, i: int)
    requires
        0 <= st <= i <= s.len(),
        index_of(s.skip(st), sep) == i - st,
    ensures
        i < s.len() ==> split_pieces(s.skip(st), sep) == seq![s.subrange(st, i)] + split_pieces(s.skip(i + 1), sep),
        i == s.len() ==> split_pieces(s.skip(st), sep) == seq![s.subrange(st, i)],
{
    let t = s.skip(st);
    assert(t.take(i - st) =~= s.subrange(st, i));
    if i < s.len() {
        assert(t.skip(i - st + 1) =~= s.skip(i + 1));
    }
    if i == s.len() {
        assert(t =~= s.subrange(st, i));
    }
}

/// The non-empty pieces, in order.
pub open spec fn nonempty(p: Seq<Seq<char>>) -> Seq<Seq<char>>
    decreases p.len(),
{
    if p.len() == 0 {
        Seq::empty()
    } else {
        (if p[0].len() > 0 {
            seq![p[0]]
        } else {
            Seq::empty()
        }) + nonempty(p.drop_first())
    }
}

/// Index of the first whitespace character of `s`, or `s.len()`.
pub open spec fn index_ws(s: Seq<char>) -> int
    decreases s.len(),
{
    if s.len() == 0 || is_ws(s[0]) {
        0
    } else {
        1 + index_ws(s.drop_first())
    }
}

proof fn lemma_index_ws_unique(s: Seq<char>, i: int)
    requires
        0 <= i <= s.len(),
        forall|k: int| 0 <= k < i ==> !is_ws(#[trigger] s[k]),
        i < s.len() ==> is_ws(s[i]),
    ensures
        index_ws(s) == i,
    decreases s.len(),
{
    if i > 0 {
        assert(!is_ws(s[0]));
        assert forall|k: int| 0 <= k < i - 1 implies !is_ws(#[trigger] s.drop_first()[k]) by {
            assert(s.drop_first()[k] == s[k + 1]);
        }
        lemma_index_ws_unique(s.drop_first(), i - 1);
    }
}

/// Position of the first whitespace character in `v[lo..hi]`, or `hi`.
pub fn find_ws(v: &Vec<char>, lo: usize, hi: usize) -> (r: usize)
    requires
        lo <= hi <= v.len(),
    ensures
        lo <= r <= hi,
        r - lo == index_ws(v@.subrange(lo as int, hi as int)),
{
    let mut i = lo;
    while i < hi && !is_whitespace(v[i])
        invariant
            lo <= i <= hi <= v.len(),
            forall|k: int| lo <= k < i ==> !is_ws(#[trigger] v@[k]),
        decreases hi - i,
    {
        i = i + 1;
    }
    proof {
        let s = v@.subrange(lo as int, hi as int);
        assert forall|k: int| 0 <= k < i - lo implies !is_ws(#[trigger] s[k]) by {
            assert(s[k] == v@[lo + k]);
        }
        if i < hi {
            assert(s[i - lo] == v@[i as int]);
        }
        lemma_index_ws_unique(s, i - lo);
    }
    i
}

/// The pieces of `s` between whitespace characters.
pub open spec fn ws_pieces(s: Seq<char>) -> Seq<Seq<char>>
    decreases s.len(),
{
    let i = index_ws(s);
    if i < 0 || i >= s.len() {
        seq![s]
    } else {
        seq![s.take(i)] + ws_pieces(s.skip(i + 1))
    }
}

/// The whitespace-separated words of `s`, as `str::split_whitespace` yields
/// them.
pub open spec fn ws_tokens(s: Seq<char>) -> Seq<Seq<char>> {
    nonempty(ws_pieces(s))
}

proof fn lemma_ws_step(s: Seq<char>, st: int, i: int)
    requires
        0 <= st <= i <= s.len(),
        index_ws(s.skip(st)) == i - st,
    ensures
        i < s.len() ==> ws_pieces(s.skip(st)) == seq![s.subrange(st, i)] + ws_pieces(s.skip(i + 1)),
        i == s.len() ==> ws_pieces(s.skip(st)) == seq![s.subrange(st, i)],
{
    let t = s.skip(st);
    assert(t.take(i - st) =~= s.subrange(st, i));
    if i < s.len() {
        assert(t.skip(i - st + 1) =~= s.skip(i + 1));
    }
    if i == s.len() {
        assert(t =~= s.subrange(st, i));
    }
}

/// The whitespace-separated words of `s`.
pub fn whitespace_tokens(s: &str) -> (out: Vec<String>)
    ensures
        strings_view(out@) == ws_tokens(s@),
{
    let v = chars_of(s);
    let ghost whole = ws_tokens(v@);
    let mut out: Vec<String> = Vec::new();
    let mut st: usize = 0;
    let mut done = false;
    assert(v@.skip(0) =~= v@);
    while !done
        invariant
            st <= v.len(),
            v@ == s@,
            whole == ws_tokens(v@),
            !done ==> strings_view(out@) + nonempty(ws_pieces(v@.skip(st as int))) == whole,
            done ==> strings_view(out@) == whole,
        decreases v.len() - st + (if done {
            0int
        } else {
            1int
        }),
    {
        let i = find_ws(&v, st, v.len());
        proof {
            assert(v@.subrange(st as int, v@.len() as int) =~= v@.skip(st as int));
            lemma_ws_step(v@, st as int, i as int);
        }
        let ghost piece = v@.subrange(st as int, i as int);
        let ghost before = strings_view(out@);
        let ghost rest = if i < v.len() {
            ws_pieces(v@.skip(i + 1))
        } else {
            Seq::<Seq<char>>::empty()
        };
        let ghost pieces = ws_pieces(v@.skip(st as int));
        assert(pieces == seq![piece] + rest);
        assert(pieces[0] == piece);
        assert(pieces.drop_first() =~= rest);
        if i > st {
            let w = string_from_range(&v, st, i);
            out.push(w);
            assert(strings_view(out@) =~= before + seq![piece]);
        } else {
            assert(strings_view(out@) =~= before);
        }
        proof {
            let head = if piece.len() > 0 {
                seq![piece]
            } else {
                Seq::<Seq<char>>::empty()
            };
            assert(nonempty(pieces) == head + nonempty(rest));
            assert(strings_view(out@) =~= before + head);
            assert(before + (head + nonempty(rest)) =~= (before + head) + nonempty(rest));
            if i == v.len() {
                assert(nonempty(rest) =~= Seq::<Seq<char>>::empty());
                assert(strings_view(out@) + Seq::<Seq<char>>::empty() =~= strings_view(out@));
            }
        }
        if i == v.len() {
            done = true;
        } else {
            st = i + 1;
        }
    }
    out
}

} // verus!
