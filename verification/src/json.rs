//! JSON text, read and written with `serde_json`.
//!
//! JSON travels through this library as text. A JSON text is called compact
//! when it is what `serde_json` writes of the value that it reads there.

use vstd::prelude::*;

verus! {

/// The kinds of JSON value.
#[derive(Debug, Clone, Copy, PartialEq, Eq, Structural)]
pub enum JsonKind {
    Null,
    Bool,
    Number,
    Text,
    Array,
    Object,
}

/// The kind of value that a text is the JSON of; `None` where it is not JSON.
pub uninterp spec fn json_kind(text: Seq<char>) -> Option<JsonKind>;

/// The compact form of a JSON text; `None` where the text is not JSON.
pub uninterp spec fn json_compact(text: Seq<char>) -> Option<Seq<char>>;

/// The member `key` of a JSON object, as compact text; `None` where the text is
/// not a JSON object or has no such member.
pub uninterp spec fn json_member(text: Seq<char>, key: Seq<char>) -> Option<Seq<char>>;

/// The text that a JSON string holds; `None` where it is not a JSON string.
pub uninterp spec fn json_string(text: Seq<char>) -> Option<Seq<char>>;

/// The IEEE 754 bits of the double that is nearest to a JSON number; `None`
/// where the text is not a JSON number.
pub uninterp spec fn json_double(text: Seq<char>) -> Option<u64>;

/// The JSON object `root` (`null` counts as an empty one) with its member `key`
/// set to the JSON `value`, in the indented form of `serde_json`.
pub uninterp spec fn json_with_member(
    root: Seq<char>,
    key: Seq<char>,
    value: Seq<char>,
) -> Seq<char>;

/// Calls `serde_json::from_str` and tells the variants of the `Value` apart.
/// `{}` is an object; of other texts, what is JSON and of which kind is left to
/// `serde_json`.
#[verifier::external_body]
pub(crate) fn kind_of(text: &str) -> (r: Option<JsonKind>)
    ensures
        r == json_kind(text@),
        text@ == "{}"@ ==> r == Some(JsonKind::Object),
{
    match serde_json::from_str::<serde_json::Value>(text).ok()? {
        serde_json::Value::Null => Some(JsonKind::Null),
        serde_json::Value::Bool(_) => Some(JsonKind::Bool),
        serde_json::Value::Number(_) => Some(JsonKind::Number),
        serde_json::Value::String(_) => Some(JsonKind::Text),
        serde_json::Value::Array(_) => Some(JsonKind::Array),
        serde_json::Value::Object(_) => Some(JsonKind::Object),
    }
}

/// Calls `serde_json::from_str` and `Value::to_string`. The compact form exists
/// exactly where the text is JSON; it is JSON of the same kind, and compact
/// itself.
#[verifier::external_body]
pub(crate) fn compact(text: &str) -> (r: Option<String>)
    ensures
        match r {
            Some(c) => json_compact(text@) == Some(c@),
            None => json_compact(text@) is None,
        },
        r is Some <==> json_kind(text@) is Some,
        r matches Some(c) ==> json_kind(c@) == json_kind(text@) && json_compact(c@) == Some(c@),
{
    Some(serde_json::from_str::<serde_json::Value>(text).ok()?.to_string())
}

/// Calls `serde_json::from_str`, `Value::get` and `Value::to_string`. Only an
/// object has members, and `{}` has none; a member is compact JSON.
#[verifier::external_body]
pub(crate) fn member(text: &str, key: &str) -> (r: Option<String>)
    ensures
        match r {
            Some(m) => json_member(text@, key@) == Some(m@),
            None => json_member(text@, key@) is None,
        },
        r is Some ==> json_kind(text@) == Some(JsonKind::Object),
        text@ == "{}"@ ==> r is None,
        r matches Some(m) ==> json_kind(m@) is Some && json_compact(m@) == Some(m@),
{
    Some(serde_json::from_str::<serde_json::Value>(text).ok()?.get(key)?.to_string())
}

/// Calls `serde_json::from_str` and `Value::as_str`, which gives a text exactly
/// for a JSON string.
#[verifier::external_body]
pub(crate) fn string_value(text: &str) -> (r: Option<String>)
    ensures
        match r {
            Some(s) => json_string(text@) == Some(s@),
            None => json_string(text@) is None,
        },
        r is Some <==> json_kind(text@) == Some(JsonKind::Text),
{
    Some(serde_json::from_str::<serde_json::Value>(text).ok()?.as_str()?.to_string())
}

/// Calls `serde_json::from_str` and `Value::as_f64`, which gives a double exactly
/// for a JSON number.
#[verifier::external_body]
pub(crate) fn double_bits(text: &str) -> (r: Option<u64>)
    ensures
        r == json_double(text@),
        r is Some <==> json_kind(text@) == Some(JsonKind::Number),
{
    Some(serde_json::from_str::<serde_json::Value>(text).ok()?.as_f64()?.to_bits())
}

/// A JSON text that is still JSON one level deeper, in brackets. `serde_json`
/// reads nested values up to a limit, so not every JSON text is.
pub open spec fn fits_in_member(text: Seq<char>) -> bool {
    json_kind(seq!['['] + text + seq![']']) is Some
}

/// Calls `serde_json::from_str` on both texts, assigns through `Value`'s
/// `IndexMut`, which panics on a root that is neither an object nor `null`, and
/// calls `serde_json::to_string_pretty`. Unless the value is nested too deep to be
/// read as a member, what it writes reads as an object that has the new member,
/// and every other member as it was in the root: none where that was `{}` or
/// `null`. For numbers this rests on the feature `float_roundtrip` of
/// `serde_json`.
#[verifier::external_body]
pub(crate) fn set_member(root: &str, key: &str, value: &str) -> (r: String)
    requires
        json_kind(root@) == Some(JsonKind::Object) || json_kind(root@) == Some(JsonKind::Null),
        json_kind(value@) is Some || value@ == "null"@,
    ensures
        r@ == json_with_member(root@, key@, value@),
        fits_in_member(value@) ==> json_kind(r@) == Some(JsonKind::Object),
        fits_in_member(value@) ==> json_member(r@, key@) == json_compact(value@),
        fits_in_member(value@) ==> forall|k: Seq<char>|
            k != key@ ==> #[trigger] json_member(r@, k) == json_member(root@, k),
        fits_in_member(value@) && (root@ == "{}"@ || json_kind(root@) == Some(JsonKind::Null))
            ==> forall|k: Seq<char>| k != key@ ==> #[trigger] json_member(r@, k) is None,
{
    let mut tree: serde_json::Value = serde_json::from_str(root).unwrap();
    tree[key] = serde_json::from_str(value).unwrap();
    serde_json::to_string_pretty(&tree).unwrap()
}

/// The sixteen hexadecimal digits.
pub open spec fn hex_digits() -> Seq<char> {
    seq!['0', '1', '2', '3', '4', '5', '6', '7', '8', '9', 'a', 'b', 'c', 'd', 'e', 'f']
}

/// How a character is written in a JSON string.
pub open spec fn escape(c: char) -> Seq<char> {
    if c == '"' || c == '\\' {
        seq!['\\', c]
    } else if c == '\u{8}' {
        seq!['\\', 'b']
    } else if c == '\u{9}' {
        seq!['\\', 't']
    } else if c == '\u{a}' {
        seq!['\\', 'n']
    } else if c == '\u{c}' {
        seq!['\\', 'f']
    } else if c == '\u{d}' {
        seq!['\\', 'r']
    } else if c <= '\u{1f}' {
        seq!['\\', 'u', '0', '0', hex_digits()[c as int / 16], hex_digits()[c as int % 16]]
    } else {
        seq![c]
    }
}

/// The characters of a text as they are written in a JSON string.
pub open spec fn escaped(s: Seq<char>) -> Seq<char>
    decreases s.len(),
{
    if s.len() == 0 {
        seq![]
    } else {
        escaped(s.drop_last()) + escape(s.last())
    }
}

/// A text as a JSON string.
pub open spec fn quoted(s: Seq<char>) -> Seq<char> {
    seq!['"'] + escaped(s) + seq!['"']
}

/// The compact JSON object whose one member `key` is the string `value`.
pub open spec fn object_of(key: Seq<char>, value: Seq<char>) -> Seq<char> {
    seq!['{'] + quoted(key) + seq![':'] + quoted(value) + seq!['}']
}

/// Calls `Map::insert` on an empty `serde_json::Map` and `Value::to_string` on
/// the object: braces round the quoted key, a colon and the quoted value, with
/// the two-character escapes of JSON where there is one, `\u00` and two digits
/// for other control characters, and every other character as it is.
#[verifier::external_body]
pub(crate) fn object_text(key: &str, value: &str) -> (r: String)
    ensures
        r@ == object_of(key@, value@),
{
    let mut members = serde_json::Map::new();
    members.insert(key.to_string(), serde_json::Value::String(value.to_string()));
    serde_json::Value::Object(members).to_string()
}

/// No line ends within an escaped character.
proof fn lemma_escape_one_line(c: char)
    ensures
        forall|i: int| 0 <= i < escape(c).len() ==> #[trigger] escape(c)[i] != '\n',
{
    let digits = hex_digits();
    assert(forall|n: int| 0 <= n < 16 ==> #[trigger] digits[n] != '\n');
    if c <= '\u{1f}' {
        assert(digits[c as int / 16] != '\n');
        assert(digits[c as int % 16] != '\n');
    }
}

/// No line ends within an escaped text.
pub proof fn lemma_escaped_one_line(s: Seq<char>)
    ensures
        !escaped(s).contains('\n'),
    decreases s.len(),
{
    if s.len() != 0 {
        lemma_escaped_one_line(s.drop_last());
        lemma_escape_one_line(s.last());
        let head = escaped(s.drop_last());
        let tail = escape(s.last());
        assert forall|i: int| 0 <= i < escaped(s).len() implies escaped(s)[i] != '\n' by {
            if i < head.len() {
                assert(head.contains(head[i]));
            } else {
                assert(escaped(s)[i] == tail[i - head.len()]);
            }
        }
    }
}

/// A compact object with one string member is one line, whatever the texts hold.
pub proof fn law_object_is_one_line(key: Seq<char>, value: Seq<char>)
    ensures
        !object_of(key, value).contains('\n'),
{
    lemma_escaped_one_line(key);
    lemma_escaped_one_line(value);
    let k = escaped(key);
    let v = escaped(value);
    let all = object_of(key, value);
    assert forall|i: int| 0 <= i < all.len() implies all[i] != '\n' by {
        if 2 <= i < 2 + k.len() {
            assert(all[i] == k[i - 2]);
            assert(k.contains(k[i - 2]));
        } else if 5 + k.len() <= i < 5 + k.len() + v.len() {
            assert(all[i] == v[i - 5 - k.len()]);
            assert(v.contains(v[i - 5 - k.len()]));
        }
    }
}

} // verus!
