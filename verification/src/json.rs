//! JSON documents as trees of plain values, and the reading of one from its
//! text.

use vstd::prelude::*;
use vstd::string::*;
use serde_json::Value;
use crate::text::{compare, TextOrder};

verus! {

/// A JSON document as a mathematical value.
pub enum Json {
    /// `null`.
    Null,
    /// `true` or `false`.
    Bool(bool),
    /// A number: its value where it is written as a whole number from 0 to
    /// the largest 64-bit one, `None` for a negative number or a fraction.
    Number(Option<u64>),
    /// A string.
    Text(Seq<char>),
    /// An array, its elements in order.
    Array(Seq<Json>),
    /// An object, its members in order, each a key and a value.
    Object(Seq<(Seq<char>, Json)>),
}

/// A JSON document.
#[derive(Debug)]
pub enum JsonValue {
    /// `null`.
    Null,
    /// `true` or `false`.
    Bool(bool),
    /// A number: its value where it is written as a whole number from 0 to
    /// the largest 64-bit one, `None` for a negative number or a fraction.
    Number(Option<u64>),
    /// A string.
    Text(String),
    /// An array, its elements in order.
    Array(Vec<JsonValue>),
    /// An object, its members in order, each a key and a value.
    Object(Vec<(String, JsonValue)>),
}

/// The document that `value` holds.
pub open spec fn model(value: JsonValue) -> Json
    decreases value,
{
    match value {
        JsonValue::Null => Json::Null,
        JsonValue::Bool(truth) => Json::Bool(truth),
        JsonValue::Number(number) => Json::Number(number),
        JsonValue::Text(text) => Json::Text(text@),
        JsonValue::Array(elements) => Json::Array(
            Seq::new(
                elements@.len(),
                |i: int|
                    if 0 <= i < elements@.len() {
                        model(elements@[i])
                    } else {
                        Json::Null
                    },
            ),
        ),
        JsonValue::Object(members) => Json::Object(
            Seq::new(
                members@.len(),
                |i: int|
                    if 0 <= i < members@.len() {
                        (members@[i].0@, model(members@[i].1))
                    } else {
                        (Seq::empty(), Json::Null)
                    },
            ),
        ),
    }
}

impl View for JsonValue {
    type V = Json;

    open spec fn view(&self) -> Json {
        model(*self)
    }
}

/// Whether member `at` is the first of `members` with the key `key`.
pub open spec fn is_first_member(members: Seq<(Seq<char>, Json)>, key: Seq<char>, at: int) -> bool {
    &&& 0 <= at < members.len()
    &&& members[at].0 == key
    &&& forall|i: int| 0 <= i < at ==> (#[trigger] members[i]).0 != key
}

/// The value of the first member of `members` with the key `key`.
pub open spec fn member(members: Seq<(Seq<char>, Json)>, key: Seq<char>) -> Option<Json> {
    if exists|at: int| is_first_member(members, key, at) {
        Some(members[choose|at: int| is_first_member(members, key, at)].1)
    } else {
        None
    }
}

impl Json {
    /// The value under `key`, where this is an object with such a member.
    pub open spec fn get(self, key: Seq<char>) -> Option<Json> {
        match self {
            Json::Object(members) => member(members, key),
            _ => None,
        }
    }

    /// The elements, where this is an array.
    pub open spec fn elements(self) -> Option<Seq<Json>> {
        match self {
            Json::Array(elements) => Some(elements),
            _ => None,
        }
    }

    /// The characters, where this is a string.
    pub open spec fn text(self) -> Option<Seq<char>> {
        match self {
            Json::Text(text) => Some(text),
            _ => None,
        }
    }

    /// The value, where this is a whole number from 0 to the largest 64-bit
    /// one.
    pub open spec fn unsigned(self) -> Option<u64> {
        match self {
            Json::Number(number) => number,
            _ => None,
        }
    }
}

/// The documents held by `values`.
pub open spec fn documents(values: Seq<JsonValue>) -> Seq<Json> {
    Seq::new(values.len(), |i: int| values[i]@)
}

impl JsonValue {
    /// The value under `key`, where this is an object with such a member.
    /// Of several members with one key the first counts.
    pub fn get(&self, key: &str) -> (found: Option<&JsonValue>)
        ensures
            match found {
                Some(value) => self@.get(key@) == Some(value@),
                None => self@.get(key@) is None,
            },
    {
        match self {
            JsonValue::Object(members) => {
                let ghost model = self@->Object_0;
                assert(model.len() == members@.len());
                let mut i: usize = 0;
                while i < members.len()
                    invariant
                        i <= members@.len(),
                        self@ == Json::Object(model),
                        model.len() == members@.len(),
                        forall|j: int|
                            0 <= j < members@.len() ==> #[trigger] model[j] == (
                                members@[j].0@,
                                members@[j].1@,
                            ),
                        forall|j: int| 0 <= j < i ==> (#[trigger] model[j]).0 != key@,
                    decreases members@.len() - i,
                {
                    if compare(members[i].0.as_str(), key) == TextOrder::Same {
                        proof {
                            assert(is_first_member(model, key@, i as int));
                            let chosen = choose|at: int| is_first_member(model, key@, at);
                            assert(chosen == i) by {
                                if chosen < i {
                                    assert(model[chosen].0 != key@);
                                } else if i < chosen {
                                    assert(model[i as int].0 != key@);
                                }
                            }
                        }
                        return Some(&members[i].1);
                    }
                    i += 1;
                }
                None
            },
            _ => None,
        }
    }

    /// Whether this is an object.
    pub fn is_object(&self) -> (object: bool)
        ensures
            object == (self@ is Object),
    {
        match self {
            JsonValue::Object(_) => true,
            _ => false,
        }
    }

    /// The elements, where this is an array.
    pub fn as_array(&self) -> (found: Option<&Vec<JsonValue>>)
        ensures
            match found {
                Some(elements) => self@.elements() == Some(documents(elements@)),
                None => self@.elements() is None,
            },
    {
        match self {
            JsonValue::Array(elements) => {
                assert(self@->Array_0 =~= documents(elements@));
                Some(elements)
            },
            _ => None,
        }
    }

    /// The text, where this is a string.
    pub fn as_text(&self) -> (found: Option<&String>)
        ensures
            match found {
                Some(text) => self@.text() == Some(text@),
                None => self@.text() is None,
            },
    {
        match self {
            JsonValue::Text(text) => Some(text),
            _ => None,
        }
    }

    /// The value, where this is a whole number from 0 to the largest 64-bit
    /// one.
    pub fn as_unsigned(&self) -> (found: Option<u64>)
        ensures
            found == self@.unsigned(),
    {
        match self {
            JsonValue::Number(number) => *number,
            _ => None,
        }
    }
}

/// `serde_json::Value`, the parser's type for a JSON document. Nothing is
/// said of what a value of it holds.
#[verifier::external_type_specification]
#[verifier::external_body]
pub struct ExValue(Value);

/// What `serde_json::from_slice` makes of `bytes`: the document that they
/// spell, or the parser's message where they spell none.
pub uninterp spec fn json_document(bytes: Seq<u8>) -> Result<Json, Seq<char>>;

/// Turns the parser's document into a `JsonValue`, variant by variant:
/// `serde_json::Number::as_u64` gives the value of a number, and the members
/// of an object come in the order of `serde_json::Map`'s iterator.
#[verifier::external_body]
fn json_from_value(value: Value) -> JsonValue {
    match value {
        Value::Null => JsonValue::Null,
        Value::Bool(truth) => JsonValue::Bool(truth),
        Value::Number(number) => JsonValue::Number(number.as_u64()),
        Value::String(text) => JsonValue::Text(text),
        Value::Array(elements) => JsonValue::Array(elements.into_iter().map(json_from_value).collect()),
        Value::Object(members) => JsonValue::Object(
            members.into_iter().map(|(key, member)| (key, json_from_value(member))).collect(),
        ),
    }
}

/// `serde_json::from_slice`, asked for a `serde_json::Value`: parses `bytes`
/// as one JSON document. What comes back depends on the bytes alone, so it
/// has a name, `json_document`; the contract claims no more than that. An
/// error is handed on as the text that its `Display` writes.
#[verifier::external_body]
pub(crate) fn parse_json(bytes: &[u8]) -> (parsed: Result<JsonValue, String>)
    ensures
        match parsed {
            Ok(value) => json_document(bytes@) == Ok::<Json, Seq<char>>(value@),
            Err(message) => json_document(bytes@) == Err::<Json, Seq<char>>(message@),
        },
{
    match serde_json::from_slice::<Value>(bytes) {
        Ok(value) => Ok(json_from_value(value)),
        Err(error) => Err(error.to_string()),
    }
}

} // verus!
