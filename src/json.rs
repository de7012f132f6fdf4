//! Reading JSON documents through serde_json. A document is handled as
//! its bytes; what serde_json reads from them is named by the spec
//! functions below.
use vstd::prelude::*;

verus! {

/// The member `key` of the JSON object `doc`, written out again as JSON;
/// `None` unless `doc` is a JSON object with that member.
pub uninterp spec fn json_member(doc: Seq<u8>, key: Seq<char>) -> Option<Seq<u8>>;

/// The text of the JSON string `doc`; `None` unless `doc` is one.
pub uninterp spec fn json_text(doc: Seq<u8>) -> Option<Seq<char>>;

/// The value of the JSON number `doc`; `None` unless it is an integer in
/// `0..=u64::MAX`.
pub uninterp spec fn json_u64(doc: Seq<u8>) -> Option<u64>;

/// The elements of the JSON array `doc`, each written out again as JSON;
/// `None` unless `doc` is a JSON array.
pub uninterp spec fn json_elements(doc: Seq<u8>) -> Option<Seq<Seq<u8>>>;

/// A lower-case hexadecimal digit.
pub open spec fn hex_digit(d: int) -> char {
    if d < 10 {
        ((d + 48) as u32) as char
    } else {
        ((d + 87) as u32) as char
    }
}

/// How a character stands inside a JSON string: `"` and `\\` and the
/// control characters below U+0020 escaped, with the short escapes where
/// JSON has them and `\\u00XX` otherwise; every other character as itself.
pub open spec fn json_escape(c: char) -> Seq<char> {
    if c == '"' {
        seq!['\\', '"']
    } else if c == '\\' {
        seq!['\\', '\\']
    } else if c == '\x08' {
        seq!['\\', 'b']
    } else if c == '\t' {
        seq!['\\', 't']
    } else if c == '\n' {
        seq!['\\', 'n']
    } else if c == '\x0c' {
        seq!['\\', 'f']
    } else if c == '\r' {
        seq!['\\', 'r']
    } else if (c as u32) < 32 {
        seq!['\\', 'u', '0', '0', hex_digit((c as u32) as int / 16), hex_digit((c as u32) as int % 16)]
    } else {
        seq![c]
    }
}

/// The characters of `s`, each escaped as inside a JSON string.
pub open spec fn json_escaped(s: Seq<char>) -> Seq<char>
    decreases s.len(),
{
    if s.len() == 0 {
        Seq::empty()
    } else {
        json_escaped(s.drop_last()) + json_escape(s.last())
    }
}

/// The JSON string literal that denotes `s`.
pub open spec fn json_string_literal(s: Seq<char>) -> Seq<char> {
    seq!['"'] + json_escaped(s) + seq!['"']
}

/// Relies on serde_json::from_slice into a `serde_json::Value`, on
/// `Value::get` for the member and on serde_json::to_vec to write it out.
#[verifier::external_body]
pub(crate) fn member(doc: &[u8], key: &str) -> (r: Option<Vec<u8>>)
    ensures
        r is Some <==> json_member(doc@, key@) is Some,
        r is Some ==> r->0@ == json_member(doc@, key@)->0,
{
    let v = serde_json::from_slice::<serde_json::Value>(doc).ok()?;
    v.get(key).and_then(|m| serde_json::to_vec(m).ok())
}

/// Relies on serde_json::from_slice into a `String`.
#[verifier::external_body]
pub(crate) fn text(doc: &[u8]) -> (r: Option<String>)
    ensures
        r is Some <==> json_text(doc@) is Some,
        r is Some ==> r->0@ == json_text(doc@)->0,
{
    serde_json::from_slice::<String>(doc).ok()
}

/// Relies on serde_json::from_slice into a `u64`.
#[verifier::external_body]
pub(crate) fn unsigned(doc: &[u8]) -> (r: Option<u64>)
    ensures
        r == json_u64(doc@),
{
    serde_json::from_slice::<u64>(doc).ok()
}

/// Relies on serde_json::from_slice into a `Vec<serde_json::Value>`, and
/// on serde_json::to_vec to write each element out.
#[verifier::external_body]
pub(crate) fn elements(doc: &[u8]) -> (r: Option<Vec<Vec<u8>>>)
    ensures
        r is Some <==> json_elements(doc@) is Some,
        r is Some ==> r->0@.len() == json_elements(doc@)->0.len() && forall|i: int|
            0 <= i < r->0@.len() ==> #[trigger] r->0@[i]@ == json_elements(doc@)->0[i],
{
    let items = serde_json::from_slice::<Vec<serde_json::Value>>(doc).ok()?;
    items.iter().map(|v| serde_json::to_vec(v).ok()).collect()
}

/// Text that serde_json writes unescaped: no `"`, no `\\` and no control
/// character below U+0020.
pub open spec fn plain_json_text(s: Seq<char>) -> bool {
    forall|i: int| 0 <= i < s.len() ==> #[trigger] s[i] != '"' && s[i] != '\\' && (s[i] as u32) >= 32
}

/// Relies on serde_json::to_string on a `str`, which writes the string
/// between double quotes with the escapes of `json_escape`, and cannot fail.
#[verifier::external_body]
pub(crate) fn quote(s: &str) -> (r: String)
    ensures
        r@ == json_string_literal(s@),
{
    serde_json::to_string(s).unwrap_or_default()
}

/// Text with nothing to escape stands in a JSON string as itself.
pub proof fn lemma_plain_text_unescaped(s: Seq<char>)
    requires
        plain_json_text(s),
    ensures
        json_escaped(s) == s,
    decreases s.len(),
{
    if s.len() > 0 {
        assert(plain_json_text(s.drop_last()));
        lemma_plain_text_unescaped(s.drop_last());
        let c = s.last();
        assert(c != '"' && c != '\\' && (c as u32) >= 32);
        assert(('\x08' as u32) == 8 && ('\t' as u32) == 9 && ('\n' as u32) == 10 && ('\x0c' as u32) == 12
            && ('\r' as u32) == 13);
        assert(json_escape(c) == seq![c]);
        assert(s.drop_last() + seq![c] =~= s);
    }
}

/// The text of the member `key` of the JSON object `doc`.
pub open spec fn text_field(doc: Seq<u8>, key: Seq<char>) -> Option<Seq<char>> {
    match json_member(doc, key) {
        Some(m) => json_text(m),
        None => None,
    }
}

/// The unsigned number held by the member `key` of the JSON object `doc`.
pub open spec fn u64_field(doc: Seq<u8>, key: Seq<char>) -> Option<u64> {
    match json_member(doc, key) {
        Some(m) => json_u64(m),
        None => None,
    }
}

/// Reads the text of the member `key` of the JSON object `doc`.
pub fn text_member(doc: &[u8], key: &str) -> (r: Option<String>)
    ensures
        r is Some <==> text_field(doc@, key@) is Some,
        r is Some ==> r->0@ == text_field(doc@, key@)->0,
{
    match member(doc, key) {
        Some(m) => text(m.as_slice()),
        None => None,
    }
}

/// Reads the unsigned number held by the member `key` of the JSON object `doc`.
pub fn u64_member(doc: &[u8], key: &str) -> (r: Option<u64>)
    ensures
        r == u64_field(doc@, key@),
{
    match member(doc, key) {
        Some(m) => unsigned(m.as_slice()),
        None => None,
    }
}

} // verus!
