//! JSON documents as the stream decoder reads them.
//!
//! Parsing is done by `serde_json`; the parsed document is handed to the
//! verified code as a [`Json`] tree of plain values.

use vstd::prelude::*;
use vstd::string::*;
use vstd::utf8::*;
use crate::text::str_eq;

verus! {

/// A parsed JSON document. Numbers carry no value: nothing here reads one.
#[derive(Debug, PartialEq, Eq)]
pub enum Json {
    Null,
    Bool(bool),
    Number,
    Text(String),
    Array(Vec<Json>),
    Object(Vec<(String, Json)>),
}

/// The document that `serde_json` reads from `text`, or `None` where it
/// rejects the text.
pub uninterp spec fn json_document(text: Seq<char>) -> Option<Json>;

/// The text that lossy UTF-8 decoding makes of `bytes`.
pub uninterp spec fn lossy_text(bytes: Seq<u8>) -> Seq<char>;

/// The value stored under the first key equal to `key`.
pub open spec fn member(fields: Seq<(String, Json)>, key: Seq<char>) -> Option<Json>
    decreases fields.len(),
{
    if fields.len() == 0 {
        None
    } else if fields[0].0@ == key {
        Some(fields[0].1)
    } else {
        member(fields.skip(1), key)
    }
}

/// The member `key` of an object, where it is present and not `null`.
pub open spec fn field(doc: Json, key: Seq<char>) -> Option<Json> {
    match doc {
        Json::Object(fields) => match member(fields@, key) {
            Some(Json::Null) => None,
            other => other,
        },
        _ => None,
    }
}

/// `serde_json::Value`, the parser's own tree. Nothing is known of a value of
/// it but what [`json_from_value`] makes of it.
#[verifier::external_type_specification]
#[verifier::external_body]
pub struct ExValue(serde_json::Value);

/// Moves a `serde_json::Value` into a [`Json`], variant by variant; a number
/// keeps its kind only, an object its members in the order the map yields them.
#[verifier::external_body]
fn json_from_value(value: serde_json::Value) -> (doc: Json) {
    match value {
        serde_json::Value::Null => Json::Null,
        serde_json::Value::Bool(b) => Json::Bool(b),
        serde_json::Value::Number(_) => Json::Number,
        serde_json::Value::String(s) => Json::Text(s),
        serde_json::Value::Array(items) => Json::Array(
            items.into_iter().map(json_from_value).collect(),
        ),
        serde_json::Value::Object(fields) => Json::Object(
            fields.into_iter().map(|(k, v)| (k, json_from_value(v))).collect(),
        ),
    }
}

/// Parses `text` with `serde_json::from_str`. The contract gives the outcome
/// its name and claims no more: the same text always yields the same document
/// or the same refusal.
#[verifier::external_body]
pub(crate) fn parse_json(text: &str) -> (doc: Option<Json>)
    ensures
        doc == json_document(text@),
{
    serde_json::from_str::<serde_json::Value>(text).ok().map(json_from_value)
}

/// Decodes `bytes` with `String::from_utf8_lossy`. Valid UTF-8 decodes to its
/// characters; of other input the contract only names the result.
#[verifier::external_body]
pub(crate) fn decode_lossy(bytes: &[u8]) -> (text: String)
    ensures
        text@ == lossy_text(bytes@),
        valid_utf8(bytes@) ==> text@ == decode_utf8(bytes@),
{
    String::from_utf8_lossy(bytes).into_owned()
}

impl Json {
    /// The member `key` of an object, where it is present and not `null`.
    pub fn get(&self, key: &str) -> (found: Option<&Json>)
        ensures
            match found {
                Some(value) => field(*self, key@) == Some(*value),
                None => field(*self, key@) is None,
            },
    {
        match self {
            Json::Object(fields) => {
                let mut i: usize = 0;
                assert(fields@.skip(0) == fields@);
                while i < fields.len()
                    invariant
                        i <= fields.len(),
                        *self == Json::Object(*fields),
                        member(fields@, key@) == member(fields@.skip(i as int), key@),
                    decreases fields.len() - i,
                {
                    let ghost rest = fields@.skip(i as int);
                    assert(rest[0] == fields@[i as int]);
                    assert(rest.skip(1) == fields@.skip(i + 1));
                    if str_eq(fields[i].0.as_str(), key) {
                        assert(member(rest, key@) == Some(rest[0].1));
                        return match &fields[i].1 {
                            Json::Null => None,
                            value => Some(value),
                        };
                    }
                    i += 1;
                }
                None
            },
            _ => None,
        }
    }

    /// The string that a JSON string value holds.
    pub fn as_text(&self) -> (text: Option<&String>)
        ensures
            match text {
                Some(s) => *self == Json::Text(*s),
                None => !(*self is Text),
            },
    {
        match self {
            Json::Text(s) => Some(s),
            _ => None,
        }
    }

    /// The items that a JSON array holds.
    pub fn as_array(&self) -> (items: Option<&Vec<Json>>)
        ensures
            match items {
                Some(v) => *self == Json::Array(*v),
                None => !(*self is Array),
            },
    {
        match self {
            Json::Array(v) => Some(v),
            _ => None,
        }
    }

    /// Whether this is a JSON object.
    pub fn is_object(&self) -> (r: bool)
        ensures
            r == (*self is Object),
    {
        match self {
            Json::Object(_) => true,
            _ => false,
        }
    }
}

/// Parses a JSON text.
pub fn parse(text: &str) -> (doc: Option<Json>)
    ensures
        doc == json_document(text@),
{
    parse_json(text)
}

} // verus!
