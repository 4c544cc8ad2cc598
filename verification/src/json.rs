//! JSON documents: the in-memory tree, its mathematical value, and lookups
//! in objects.

use crate::outside::{
    compact_json, is_json_number, json_number, parsed_json, pretty_json, read_json, render_json,
    render_json_pretty,
};
use crate::text::text_eq;
use vstd::prelude::*;

verus! {

/// A JSON document as a mathematical value.
pub enum Json {
    Null,
    Bool(bool),
    Number(Seq<char>),
    Text(Seq<char>),
    Array(Seq<Json>),
    Object(Seq<(Seq<char>, Json)>),
}

/// A JSON document held in memory.
///
/// A number is held by its JSON text, so that no precision is lost; a
/// text that is no JSON number is written as `null`. An object is a list of
/// fields; where a key occurs more than once the last occurrence counts.
#[derive(Debug, PartialEq, Eq)]
pub enum JsonValue {
    Null,
    Bool(bool),
    Number(String),
    Text(String),
    Array(Vec<JsonValue>),
    Object(Vec<(String, JsonValue)>),
}

/// The mathematical value of a document held in memory.
pub open spec fn value_of(doc: JsonValue) -> Json
    decreases doc,
{
    match doc {
        JsonValue::Null => Json::Null,
        JsonValue::Bool(b) => Json::Bool(b),
        JsonValue::Number(t) => Json::Number(t@),
        JsonValue::Text(t) => Json::Text(t@),
        JsonValue::Array(items) => Json::Array(
            Seq::new(
                items.len() as nat,
                |i: int|
                    if 0 <= i < items.len() {
                        value_of(items[i])
                    } else {
                        Json::Null
                    },
            ),
        ),
        JsonValue::Object(fields) => Json::Object(
            Seq::new(
                fields.len() as nat,
                |i: int|
                    if 0 <= i < fields.len() {
                        (fields[i].0@, value_of(fields[i].1))
                    } else {
                        (Seq::empty(), Json::Null)
                    },
            ),
        ),
    }
}

impl View for JsonValue {
    type V = Json;

    open spec fn view(&self) -> Json {
        value_of(*self)
    }
}

/// The fields of an object as mathematical values, in their order.
pub open spec fn fields_view(fields: Seq<(String, JsonValue)>) -> Seq<(Seq<char>, Json)> {
    Seq::new(fields.len(), |i: int| (fields[i].0@, fields[i].1@))
}

/// The items of an array as mathematical values, in their order.
pub open spec fn items_view(items: Seq<JsonValue>) -> Seq<Json> {
    Seq::new(items.len(), |i: int| items[i]@)
}

/// The views of a list of texts, in their order.
pub open spec fn texts(items: Seq<String>) -> Seq<Seq<char>> {
    Seq::new(items.len(), |i: int| items[i]@)
}

/// The value under `key` in a list of fields: that of the last field with
/// this key, `None` where no field has it.
pub open spec fn lookup(fields: Seq<(Seq<char>, Json)>, key: Seq<char>) -> Option<Json>
    decreases fields.len(),
{
    if fields.len() == 0 {
        None
    } else if fields.last().0 == key {
        Some(fields.last().1)
    } else {
        lookup(fields.drop_last(), key)
    }
}

/// The value under `key` where `doc` is an object that has it.
pub open spec fn member(doc: Json, key: Seq<char>) -> Option<Json> {
    match doc {
        Json::Object(fields) => lookup(fields, key),
        _ => None,
    }
}

/// An object's value is the list of its fields' values.
pub proof fn lemma_object_view(fields: Vec<(String, JsonValue)>)
    ensures
        JsonValue::Object(fields)@ == Json::Object(fields_view(fields@)),
{
    assert(JsonValue::Object(fields)@->Object_0 =~= fields_view(fields@));
}

/// An array's value is the list of its items' values.
pub proof fn lemma_array_view(items: Vec<JsonValue>)
    ensures
        JsonValue::Array(items)@ == Json::Array(items_view(items@)),
{
    assert(JsonValue::Array(items)@->Array_0 =~= items_view(items@));
}

/// Finds the value under `key` in a list of fields.
pub fn find_field<'a>(fields: &'a Vec<(String, JsonValue)>, key: &str) -> (r: Option<
    &'a JsonValue,
>)
    ensures
        match r {
            Some(v) => lookup(fields_view(fields@), key@) == Some(v@),
            None => lookup(fields_view(fields@), key@) is None,
        },
{
    let ghost all = fields_view(fields@);
    let mut i: usize = fields.len();
    assert(all.subrange(0, i as int) =~= all);
    while i > 0
        invariant
            i <= fields.len(),
            all == fields_view(fields@),
            lookup(all, key@) == lookup(all.subrange(0, i as int), key@),
        decreases i,
    {
        i -= 1;
        assert(all.subrange(0, i as int + 1).drop_last() =~= all.subrange(0, i as int));
        if text_eq(fields[i].0.as_str(), key) {
            return Some(&fields[i].1);
        }
    }
    None
}

impl JsonValue {
    /// The value under `key` where this document is an object that has it.
    pub fn get<'a>(&'a self, key: &str) -> (r: Option<&'a JsonValue>)
        ensures
            match r {
                Some(v) => member(self@, key@) == Some(v@),
                None => member(self@, key@) is None,
            },
    {
        match self {
            JsonValue::Object(fields) => {
                proof {
                    lemma_object_view(*fields);
                }
                find_field(fields, key)
            },
            _ => None,
        }
    }

    /// The number that a text writes, if it writes one.
    pub fn number(text: &str) -> (r: Option<JsonValue>)
        ensures
            json_number(text@) ==> r is Some && r->0@ == Json::Number(text@),
            !json_number(text@) ==> r is None,
    {
        if is_json_number(text) {
            Some(JsonValue::Number(text.to_string()))
        } else {
            None
        }
    }

    /// The compact JSON text of the document. A number whose text is no
    /// JSON number is written as `null`.
    pub fn to_text(&self) -> (text: String)
        ensures
            text@ == compact_json(self@),
            self@ matches Json::Number(t) && !json_number(t) ==> text@ == "null"@,
    {
        render_json(self)
    }

    /// The indented JSON text of the document, as it is written to a
    /// file. A number whose text is no JSON number is written as `null`.
    pub fn to_pretty_text(&self) -> (text: String)
        ensures
            text@ == pretty_json(self@),
            self@ matches Json::Number(t) && !json_number(t) ==> text@ == "null"@,
    {
        render_json_pretty(self)
    }

    /// The document that a JSON text holds; `None` where the text is no
    /// JSON document.
    pub fn parse(text: &str) -> (doc: Option<JsonValue>)
        ensures
            match doc {
                Some(v) => parsed_json(text@) == Some(v@),
                None => parsed_json(text@) is None,
            },
    {
        read_json(text)
    }

    /// A deep copy of the document.
    #[verifier::loop_isolation(false)]
    pub fn duplicate(&self) -> (r: JsonValue)
        ensures
            r@ == self@,
        decreases self,
    {
        match self {
            JsonValue::Null => JsonValue::Null,
            JsonValue::Bool(b) => JsonValue::Bool(*b),
            JsonValue::Number(t) => JsonValue::Number(t.clone()),
            JsonValue::Text(t) => JsonValue::Text(t.clone()),
            JsonValue::Array(items) => {
                let mut out: Vec<JsonValue> = Vec::new();
                let mut i: usize = 0;
                while i < items.len()
                    invariant
                        i <= items.len(),
                        out.len() == i,
                        forall|j: int| 0 <= j < i ==> out[j]@ == items[j]@,
                    decreases items.len() - i,
                {
                    let item = items[i].duplicate();
                    out.push(item);
                    i += 1;
                }
                let r = JsonValue::Array(out);
                assert(r@->Array_0 =~= self@->Array_0);
                r
            },
            JsonValue::Object(fields) => {
                let mut out: Vec<(String, JsonValue)> = Vec::new();
                let mut i: usize = 0;
                while i < fields.len()
                    invariant
                        i <= fields.len(),
                        out.len() == i,
                        forall|j: int| 0 <= j < i ==> out[j].0@ == fields[j].0@ && out[j].1@ == fields[j].1@,
                    decreases fields.len() - i,
                {
                    let value = fields[i].1.duplicate();
                    out.push((fields[i].0.clone(), value));
                    i += 1;
                }
                let r = JsonValue::Object(out);
                assert(r@->Object_0 =~= self@->Object_0);
                r
            },
        }
    }
}

impl Clone for JsonValue {
    fn clone(&self) -> (r: JsonValue)
        ensures
            r@ == self@,
    {
        self.duplicate()
    }
}

} // verus!
