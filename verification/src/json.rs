//! JSON documents as `serde_json` holds them, and what is read out of them.
//!
//! A `serde_json::Value` is opaque here. Its contents are named by [`json_of`], a
//! [`Json`] tree; the calls into the crate are specified over that tree.

use serde_json::Value;
use vstd::prelude::*;

verus! {

/// A JSON document.
///
/// A number is modelled by the text that `serde_json` writes for it, an object by
/// the map from its keys to its members.
pub enum Json {
    Null,
    Bool(bool),
    Number(Seq<char>),
    Text(Seq<char>),
    List(Seq<Json>),
    Object(Map<Seq<char>, Json>),
}

impl Json {
    /// The member of an object under `key`; none for anything that is no object.
    pub open spec fn member(self, key: Seq<char>) -> Option<Json> {
        match self {
            Json::Object(members) => if members.dom().contains(key) {
                Some(members[key])
            } else {
                None
            },
            _ => None,
        }
    }

    /// The characters of a string; none for anything that is no string.
    pub open spec fn text(self) -> Option<Seq<char>> {
        match self {
            Json::Text(chars) => Some(chars),
            _ => None,
        }
    }

    /// The items of an array; none for anything that is no array.
    pub open spec fn items(self) -> Option<Seq<Json>> {
        match self {
            Json::List(items) => Some(items),
            _ => None,
        }
    }

    /// The member under `key` where it is a string.
    pub open spec fn text_member(self, key: Seq<char>) -> Option<Seq<char>> {
        match self.member(key) {
            Some(member) => member.text(),
            None => None,
        }
    }

    /// The member under `key` where it is an array.
    pub open spec fn items_member(self, key: Seq<char>) -> Option<Seq<Json>> {
        match self.member(key) {
            Some(member) => member.items(),
            None => None,
        }
    }

    /// The object without members.
    pub open spec fn empty_object() -> Json {
        Json::Object(Map::empty())
    }
}

/// `serde_json::Value`, a JSON document.
#[verifier::external_type_specification]
#[verifier::external_body]
pub struct ExValue(serde_json::Value);

/// The contents of a `serde_json::Value`.
pub uninterp spec fn json_of(value: Value) -> Json;

/// The document that a JSON text holds, where `serde_json` accepts the text.
pub uninterp spec fn json_parse(text: Seq<char>) -> Option<Json>;

/// The compact JSON text that `serde_json` writes for a document.
pub uninterp spec fn json_print(json: Json) -> Seq<char>;

/// `serde_json::Value::get` with a string index: the member under that key where the
/// value is an object that has it, none otherwise.
#[verifier::external_body]
fn get<'a>(value: &'a Value, key: &str) -> (member: Option<&'a Value>)
    ensures
        match member {
            Some(found) => json_of(*value).member(key@) == Some(json_of(*found)),
            None => json_of(*value).member(key@) is None,
        },
{
    value.get(key)
}

/// `serde_json::Value::as_str`: the string where the value is one, none otherwise.
pub assume_specification[ Value::as_str ](value: &Value) -> (text: Option<&str>)
    ensures
        match text {
            Some(chars) => json_of(*value).text() == Some(chars@),
            None => json_of(*value).text() is None,
        },
;

/// `serde_json::Value::as_array`: the items where the value is an array, none
/// otherwise.
pub assume_specification[ Value::as_array ](value: &Value) -> (items: Option<&Vec<Value>>)
    ensures
        match items {
            Some(list) => json_of(*value).items() == Some(list@.map_values(|v: Value| json_of(v))),
            None => json_of(*value).items() is None,
        },
;

/// `serde_json::from_str` into a `Value`: whether the text is accepted, and the
/// document that it then holds, is a function of the text alone.
#[verifier::external_body]
fn parse(text: &str) -> (value: Option<Value>)
    ensures
        match value {
            Some(parsed) => json_parse(text@) == Some(json_of(parsed)),
            None => json_parse(text@) is None,
        },
{
    serde_json::from_str(text).ok()
}

/// `serde_json::Map::new` as an object: the document without members.
#[verifier::external_body]
fn empty_object() -> (value: Value)
    ensures
        json_of(value) == Json::empty_object(),
{
    Value::Object(serde_json::Map::new())
}

/// `to_string` of a `serde_json::Value`: the compact text is a function of the
/// contents, since the crate keeps the members of an object sorted by key; the text
/// of the object without members is a pair of braces.
#[verifier::external_body]
pub(crate) fn compact_text(value: &Value) -> (text: String)
    ensures
        text@ == json_print(json_of(*value)),
        json_of(*value) == Json::empty_object() ==> text@ == "{}"@,
{
    value.to_string()
}

/// Reads the member under `key` where it is a string.
pub fn text_member<'a>(value: &'a Value, key: &str) -> (text: Option<&'a str>)
    ensures
        match text {
            Some(chars) => json_of(*value).text_member(key@) == Some(chars@),
            None => json_of(*value).text_member(key@) is None,
        },
{
    match get(value, key) {
        Some(member) => member.as_str(),
        None => None,
    }
}

/// Reads the member under `key` where it is an array.
pub fn items_member<'a>(value: &'a Value, key: &str) -> (items: Option<&'a Vec<Value>>)
    ensures
        match items {
            Some(list) => json_of(*value).items_member(key@) == Some(
                list@.map_values(|v: Value| json_of(v)),
            ),
            None => json_of(*value).items_member(key@) is None,
        },
{
    match get(value, key) {
        Some(member) => member.as_array(),
        None => None,
    }
}

/// The document that stands for the arguments of a tool call: the parsed one, or the
/// object without members where there is none.
pub open spec fn arguments_or_empty(parsed: Option<Json>) -> Json {
    match parsed {
        Some(json) => json,
        None => Json::empty_object(),
    }
}

/// Takes the parsed arguments, or the object without members where there are none.
pub fn or_empty_object(parsed: Option<Value>) -> (value: Value)
    ensures
        match parsed {
            Some(given) => json_of(value) == json_of(given),
            None => json_of(value) == Json::empty_object(),
        },
{
    match parsed {
        Some(given) => given,
        None => empty_object(),
    }
}

/// Parses the arguments text of a tool call; a text that is not JSON counts as the
/// object without members.
pub fn parse_arguments(text: &str) -> (value: Value)
    ensures
        json_of(value) == arguments_or_empty(json_parse(text@)),
{
    or_empty_object(parse(text))
}

} // verus!
