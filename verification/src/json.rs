//! JSON text as `serde_json::to_string` writes it (compact form).
use crate::gb::catalog::entries_view;
use crate::gb::lex::strictly_sorted;
use crate::text::join;
use vstd::prelude::*;

verus! {

/// Lowercase hexadecimal digit of `d < 16`.
pub open spec fn hex_digit(d: u32) -> char {
    if d < 10 {
        ((d + 48) as u32) as char
    } else {
        ((d + 87) as u32) as char
    }
}

/// How one character is written inside a JSON string: `"` and `\` behind a
/// backslash; backspace, tab, line feed, form feed and carriage return as
/// `\b`, `\t`, `\n`, `\f`, `\r`; the other characters below U+0020 as
/// `\u00XX` with lowercase hexadecimal digits; every other character as is.
pub open spec fn json_escape(c: char) -> Seq<char> {
    let u = c as u32;
    if c == '"' {
        seq!['\\', '"']
    } else if c == '\\' {
        seq!['\\', '\\']
    } else if u == 8 {
        seq!['\\', 'b']
    } else if u == 9 {
        seq!['\\', 't']
    } else if u == 10 {
        seq!['\\', 'n']
    } else if u == 12 {
        seq!['\\', 'f']
    } else if u == 13 {
        seq!['\\', 'r']
    } else if u < 32 {
        seq!['\\', 'u', '0', '0', hex_digit(u / 16), hex_digit(u % 16)]
    } else {
        seq![c]
    }
}

/// The characters of `s`, each written as in a JSON string.
pub open spec fn json_escaped(s: Seq<char>) -> Seq<char>
    decreases s.len(),
{
    if s.len() == 0 {
        Seq::empty()
    } else {
        json_escaped(s.drop_last()) + json_escape(s.last())
    }
}

/// The JSON string of `s`: its escaped characters between double quotes.
pub open spec fn json_quoted(s: Seq<char>) -> Seq<char> {
    seq!['"'] + json_escaped(s) + seq!['"']
}

/// Calls `serde_json::to_string` on a string; serializing a string cannot
/// fail, and the text is the string quoted with serde_json's escapes.
#[verifier::external_body]
pub(crate) fn quote_json(s: &str) -> (q: String)
    ensures
        q@ == json_quoted(s@),
{
    serde_json::to_string(s).unwrap_or_default()
}

/// The keys of a list of entries, in order.
pub open spec fn keys_of(m: Seq<(Seq<char>, Seq<char>)>) -> Seq<Seq<char>> {
    m.map_values(|e: (Seq<char>, Seq<char>)| e.0)
}

/// One member of a JSON object: the quoted key, `:` and the quoted value.
pub open spec fn json_member(e: (Seq<char>, Seq<char>)) -> Seq<char> {
    json_quoted(e.0) + seq![':'] + json_quoted(e.1)
}

/// A JSON object of string members, in the given order, separated by `,`.
pub open spec fn json_object(m: Seq<(Seq<char>, Seq<char>)>) -> Seq<char> {
    seq!['{'] + join(m.map_values(|e: (Seq<char>, Seq<char>)| json_member(e)), seq![',']) + seq!['}']
}

/// A JSON array of such objects, separated by `,`.
pub open spec fn json_array_of_objects(maps: Seq<Seq<(Seq<char>, Seq<char>)>>) -> Seq<char> {
    seq!['['] + join(maps.map_values(|m: Seq<(Seq<char>, Seq<char>)>| json_object(m)), seq![','])
        + seq![']']
}

/// Calls `serde_json::to_string` on the maps, each turned into a
/// `BTreeMap<String, String>`. The keys of each map are in strictly
/// ascending order, so the map keeps the entries one for one and in order;
/// serializing string maps cannot fail, and the compact text is a JSON
/// array of objects with serde_json's string escapes.
#[verifier::external_body]
pub(crate) fn json_of_maps(maps: &Vec<Vec<(String, String)>>) -> (s: String)
    requires
        forall|i: int| 0 <= i < maps@.len() ==> strictly_sorted(keys_of(entries_view(#[trigger] maps@[i]@))),
    ensures
        s@ == json_array_of_objects(maps@.map_values(|m: Vec<(String, String)>| entries_view(m@))),
{
    let converted: Vec<std::collections::BTreeMap<String, String>> = maps
        .iter()
        .map(|m| m.iter().cloned().collect())
        .collect();
    serde_json::to_string(&converted).unwrap_or_default()
}

} // verus!
