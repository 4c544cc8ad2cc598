//! What the engine takes from other crates and from parts of `std` that
//! have no specification: random identifiers, the clock and the text of a
//! time, JSON text, media types, and two facts of Unicode.
//!
//! The functions marked `external_body` are believed, not proved: each
//! contract states what the code behind it documents. Where a result
//! depends on its arguments alone and takes pages to state, it is given a
//! name, and the contract says no more than that the result is what the
//! name stands for.

use crate::json::{Json, JsonValue};
use vstd::prelude::*;

verus! {

/// `serde_json::Value`, carried from one call to the next. Nothing is
/// known of what a value holds but through the names below.
#[verifier::external_type_specification]
#[verifier::external_body]
pub struct ExOutsideValue(serde_json::Value);

/// Whether `c` can stand in an identifier: a lower-case hexadecimal digit
/// or a hyphen.
pub open spec fn is_id_char(c: char) -> bool {
    ('0' <= c && c <= '9') || ('a' <= c && c <= 'f') || c == '-'
}

/// The compact JSON text of a document, as `serde_json` writes it.
pub uninterp spec fn compact_json(doc: Json) -> Seq<char>;

/// The indented JSON text of a document, as `serde_json` writes it.
pub uninterp spec fn pretty_json(doc: Json) -> Seq<char>;

/// Whether `serde_json` takes a text for a number.
pub uninterp spec fn json_number(text: Seq<char>) -> bool;

/// The compact JSON text of a `serde_json::Value`.
pub uninterp spec fn outside_text(value: serde_json::Value) -> Seq<char>;

/// The indented JSON text of a `serde_json::Value`.
pub uninterp spec fn outside_pretty(value: serde_json::Value) -> Seq<char>;

/// The document that a `serde_json::Value` holds.
pub uninterp spec fn held_by(value: serde_json::Value) -> Json;

/// The document that a JSON text holds, as `serde_json` reads it; `None`
/// where the text is no JSON document.
pub uninterp spec fn parsed_json(text: Seq<char>) -> Option<Json>;

/// The RFC 3339 text of the time that lies a number of microseconds after
/// the start of 1970, in UTC, as `chrono` writes it; empty for a time that
/// `chrono` cannot hold.
pub uninterp spec fn rfc3339_text(micros: i64) -> Seq<char>;

/// The media type that `mime_guess` takes a path to have, by its extension;
/// `application/octet-stream` where it knows none.
pub uninterp spec fn media_type_of(path: Seq<char>) -> Seq<char>;

/// The lower-case form of a text, as `str::to_lowercase` gives it.
pub uninterp spec fn lowercased(text: Seq<char>) -> Seq<char>;

/// Whether a character has the Unicode property `White_Space`: the
/// controls from tab to carriage return, the space, the next-line control,
/// the no-break space, and the spaces and separators of the general
/// punctuation and ideographic blocks.
pub open spec fn is_white_space(c: char) -> bool {
    let u = c as u32;
    (0x09 <= u && u <= 0x0D) || u == 0x20 || u == 0x85 || u == 0xA0 || u == 0x1680 || (0x2000
        <= u && u <= 0x200A) || u == 0x2028 || u == 0x2029 || u == 0x202F || u == 0x205F || u
        == 0x3000
}

/// Whether every character of a text is an ASCII character.
pub open spec fn ascii_text(text: Seq<char>) -> bool {
    forall|i: int| 0 <= i < text.len() ==> (#[trigger] text[i]) as u32 <= 0x7F
}

/// The code of the lower-case form of an ASCII character: that of the
/// small letter for a capital letter, its own for any other.
pub open spec fn ascii_lower_code(c: char) -> u32 {
    if 'A' <= c && c <= 'Z' {
        (c as u32 + 32) as u32
    } else {
        c as u32
    }
}

/// `str::to_lowercase`: the text with each character replaced by its
/// lower-case form under Unicode's rules, which depends on the text alone.
/// In a text of ASCII characters only, each capital letter becomes its
/// small letter and nothing else changes.
#[verifier::external_body]
pub(crate) fn lowercase(text: &str) -> (r: String)
    ensures
        r@ == lowercased(text@),
        ascii_text(text@) ==> r@.len() == text@.len() && forall|i: int|
            0 <= i < text@.len() ==> (#[trigger] r@[i]) as u32 == ascii_lower_code(text@[i]),
{
    text.to_lowercase()
}

/// `char::is_whitespace`: whether the character has the Unicode property
/// `White_Space`, whose members `is_white_space` lists.
#[verifier::external_body]
pub(crate) fn is_whitespace(c: char) -> (r: bool)
    ensures
        r == is_white_space(c),
{
    c.is_whitespace()
}

/// `uuid::Uuid::new_v4`, written with `to_string`: a random version-4
/// identifier in its hyphenated lower-case form, which has 36 characters,
/// each a hexadecimal digit or a hyphen. Nothing is claimed of which
/// identifier comes out. The call fails only where the system has no
/// random bytes to give.
#[verifier::external_body]
pub(crate) fn random_id() -> (id: String)
    ensures
        id@.len() == 36,
        forall|i: int| 0 <= i < id@.len() ==> is_id_char(#[trigger] id@[i]),
{
    uuid::Uuid::new_v4().to_string()
}

/// `chrono::Utc::now`, read with `timestamp_micros`: the microseconds since
/// the start of 1970, by the system clock. Nothing is claimed of the value.
/// The call fails only where the clock stands before 1970.
#[verifier::external_body]
pub(crate) fn clock_micros() -> (micros: i64) {
    chrono::Utc::now().timestamp_micros()
}

/// `chrono::DateTime::<Utc>::from_timestamp_micros`, written with
/// `to_rfc3339`: the time as text, which depends on the number alone. A
/// number that `from_timestamp_micros` refuses as out of range gives the
/// empty text.
#[verifier::external_body]
pub(crate) fn rfc3339(micros: i64) -> (text: String)
    ensures
        text@ == rfc3339_text(micros),
{
    chrono::DateTime::<chrono::Utc>::from_timestamp_micros(micros)
        .map(|time| time.to_rfc3339())
        .unwrap_or_default()
}

/// `mime_guess::from_path`, read with `first_or_octet_stream`: the first
/// media type that the table of `mime_guess` holds for the path's
/// extension, else `application/octet-stream`. No file is touched; the
/// answer depends on the path alone.
#[verifier::external_body]
pub(crate) fn guess_media_type(path: &str) -> (r: String)
    ensures
        r@ == media_type_of(path@),
{
    mime_guess::from_path(path).first_or_octet_stream().as_ref().to_string()
}

/// `serde_json::Value`'s variants, filled from a document one for one. A
/// number goes through `serde_json::Number`'s `from_str`, and a text that is
/// no JSON number becomes `null`, as `serde_json` does with a number it
/// cannot write. The value that is built, and so its text, depends on the
/// document alone: `compact_json` and `pretty_json` name that text. The
/// text of a number that `from_str` refuses is therefore `null`.
#[verifier::external_body]
pub(crate) fn to_outside(doc: &JsonValue) -> (r: serde_json::Value)
    ensures
        outside_text(r) == compact_json(doc@),
        outside_pretty(r) == pretty_json(doc@),
        doc@ matches Json::Number(t) && !json_number(t) ==> outside_text(r) == "null"@
            && outside_pretty(r) == "null"@,
{
    match doc {
        JsonValue::Null => serde_json::Value::Null,
        JsonValue::Bool(b) => serde_json::Value::Bool(*b),
        JsonValue::Number(t) => t.parse().map_or(serde_json::Value::Null, serde_json::Value::Number),
        JsonValue::Text(t) => serde_json::Value::String(t.clone()),
        JsonValue::Array(items) => serde_json::Value::Array(items.iter().map(to_outside).collect()),
        JsonValue::Object(fields) => serde_json::Value::Object(
            fields.iter().map(|(k, v)| (k.clone(), to_outside(v))).collect(),
        ),
    }
}

/// `serde_json::Value`'s variants, read into a document one for one. A
/// number is kept by the text that `serde_json::Number`'s `to_string`
/// gives; the fields of an object come in the order of its map.
#[verifier::external_body]
pub(crate) fn from_outside(value: &serde_json::Value) -> (r: JsonValue)
    ensures
        r@ == held_by(*value),
{
    match value {
        serde_json::Value::Null => JsonValue::Null,
        serde_json::Value::Bool(b) => JsonValue::Bool(*b),
        serde_json::Value::Number(n) => JsonValue::Number(n.to_string()),
        serde_json::Value::String(t) => JsonValue::Text(t.clone()),
        serde_json::Value::Array(items) => JsonValue::Array(items.iter().map(from_outside).collect()),
        serde_json::Value::Object(fields) => JsonValue::Object(
            fields.iter().map(|(k, v)| (k.clone(), from_outside(v))).collect(),
        ),
    }
}

/// `serde_json::Value`'s `to_string`: the value's compact JSON text.
#[verifier::external_body]
pub(crate) fn write_outside(value: &serde_json::Value) -> (text: String)
    ensures
        text@ == outside_text(*value),
{
    value.to_string()
}

/// `serde_json::to_string_pretty`: the value's indented JSON text. The
/// call reports an error only for a `Serialize` impl that fails or a map
/// whose keys are no texts; a `serde_json::Value` has neither, so the text
/// is always there.
#[verifier::external_body]
pub(crate) fn write_outside_pretty(value: &serde_json::Value) -> (text: Option<String>)
    ensures
        text is Some,
        text->0@ == outside_pretty(*value),
{
    serde_json::to_string_pretty(value).ok()
}

/// `serde_json::Number`'s `from_str`: whether it takes the text for a
/// number, which depends on the text alone.
#[verifier::external_body]
pub(crate) fn is_json_number(text: &str) -> (r: bool)
    ensures
        r == json_number(text@),
{
    text.parse::<serde_json::Number>().is_ok()
}

/// `serde_json::from_str` for a `serde_json::Value`: the value that the
/// text holds, or `None` where `serde_json` refuses the text. The answer
/// depends on the text alone.
#[verifier::external_body]
pub(crate) fn parse_outside(text: &str) -> (value: Option<serde_json::Value>)
    ensures
        match value {
            Some(v) => parsed_json(text@) == Some(held_by(v)),
            None => parsed_json(text@) is None,
        },
{
    serde_json::from_str::<serde_json::Value>(text).ok()
}

/// The compact JSON text of a document.
pub(crate) fn render_json(doc: &JsonValue) -> (text: String)
    ensures
        text@ == compact_json(doc@),
        doc@ matches Json::Number(t) && !json_number(t) ==> text@ == "null"@,
{
    let value = to_outside(doc);
    write_outside(&value)
}

/// The indented JSON text of a document.
pub(crate) fn render_json_pretty(doc: &JsonValue) -> (text: String)
    ensures
        text@ == pretty_json(doc@),
        doc@ matches Json::Number(t) && !json_number(t) ==> text@ == "null"@,
{
    let value = to_outside(doc);
    let text: Option<String> = write_outside_pretty(&value);
    text.unwrap()
}

/// The document that a JSON text holds, if it holds one.
pub(crate) fn read_json(text: &str) -> (doc: Option<JsonValue>)
    ensures
        match doc {
            Some(v) => parsed_json(text@) == Some(v@),
            None => parsed_json(text@) is None,
        },
{
    match parse_outside(text) {
        Some(value) => Some(from_outside(&value)),
        None => None,
    }
}

} // verus!
