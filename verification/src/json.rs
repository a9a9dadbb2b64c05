//! JSON documents as plain trees.
//!
//! Parsing is done by `serde_json`. What it hands back is rebuilt, node by
//! node, as a [`Json`] tree that the rest of the crate can look into.

use vstd::prelude::*;

verus! {

/// `serde_json::Value`, taken as opaque: of a value nothing is known but the
/// document that [`value_content`] names for it.
#[verifier::external_type_specification]
#[verifier::external_body]
pub struct ExValue(serde_json::Value);

/// `serde_json::Number`, taken as opaque: a number is carried as it was
/// read, and nothing is claimed of it.
#[verifier::external_type_specification]
#[verifier::external_body]
pub struct ExNumber(serde_json::Number);

/// `serde_json::Error`, taken as opaque: it says that parsing failed, and
/// nothing is claimed of what it holds.
#[verifier::external_type_specification]
#[verifier::external_body]
pub struct ExError(serde_json::Error);

/// A JSON document.
///
/// Numbers are kept as `serde_json` read them. The members of an object
/// come in the order in which `serde_json` walks its map.
#[derive(Debug, PartialEq, Eq)]
pub enum Json {
    Null,
    Bool(bool),
    Number(serde_json::Number),
    Text(String),
    Array(Vec<Json>),
    Object(Vec<(String, Json)>),
}

/// The mathematical value of a [`Json`]: strings are sequences of
/// characters, arrays and objects are sequences of values.
pub enum JsonValue {
    Null,
    Bool(bool),
    Number(serde_json::Number),
    Text(Seq<char>),
    Array(Seq<JsonValue>),
    Object(Seq<(Seq<char>, JsonValue)>),
}

impl View for Json {
    type V = JsonValue;

    open spec fn view(&self) -> JsonValue
        decreases self,
    {
        match self {
            Json::Null => JsonValue::Null,
            Json::Bool(b) => JsonValue::Bool(*b),
            Json::Number(n) => JsonValue::Number(*n),
            Json::Text(s) => JsonValue::Text(s@),
            Json::Array(items) => JsonValue::Array(
                Seq::new(
                    items@.len(),
                    |i: int|
                        if 0 <= i < items@.len() {
                            items@[i].view()
                        } else {
                            JsonValue::Null
                        },
                ),
            ),
            Json::Object(members) => JsonValue::Object(
                Seq::new(
                    members@.len(),
                    |i: int|
                        if 0 <= i < members@.len() {
                            (members@[i].0@, members@[i].1.view())
                        } else {
                            (Seq::empty(), JsonValue::Null)
                        },
                ),
            ),
        }
    }
}

/// The view of an optional document.
pub open spec fn optional_json(j: Option<Json>) -> Option<JsonValue> {
    match j {
        Some(j) => Some(j@),
        None => None,
    }
}

/// The document that `serde_json::from_str` reads from `text`, or `None`
/// where it reports an error.
pub uninterp spec fn json_document(text: Seq<char>) -> Option<JsonValue>;

/// The document that a `serde_json::Value` holds.
pub uninterp spec fn value_content(v: serde_json::Value) -> JsonValue;

/// The top node of a `serde_json::Value`, its children still unopened.
enum Opened {
    Null,
    Bool(bool),
    Number(serde_json::Number),
    Text(String),
    Array(Vec<serde_json::Value>),
    Object(Vec<(String, serde_json::Value)>),
}

spec fn opened_content(o: Opened) -> JsonValue {
    match o {
        Opened::Null => JsonValue::Null,
        Opened::Bool(b) => JsonValue::Bool(b),
        Opened::Number(n) => JsonValue::Number(n),
        Opened::Text(s) => JsonValue::Text(s@),
        Opened::Array(items) => JsonValue::Array(
            Seq::new(items@.len(), |i: int| value_content(items@[i])),
        ),
        Opened::Object(members) => JsonValue::Object(
            Seq::new(members@.len(), |i: int| (members@[i].0@, value_content(members@[i].1))),
        ),
    }
}

/// `serde_json::from_str` at the type `serde_json::Value`.
///
/// Trusted: the outcome depends on the text alone. `Ok` holds the document
/// that [`json_document`] names; an error means that it names none.
#[verifier::external_body]
fn parse_value(text: &str) -> (r: Result<serde_json::Value, serde_json::Error>)
    ensures
        (match r {
            Ok(v) => json_document(text@) == Some(value_content(v)),
            Err(_) => json_document(text@) is None,
        }),
{
    serde_json::from_str::<serde_json::Value>(text)
}

/// Takes a `serde_json::Value` apart by one level: one arm for each of its
/// variants, the fields moved out as they are. An object's map is walked
/// with `serde_json::Map::into_iter`.
///
/// Trusted: the node that comes out has the variant and the fields of the
/// value that went in.
#[verifier::external_body]
fn open_value(v: serde_json::Value) -> (o: Opened)
    ensures
        opened_content(o) == value_content(v),
{
    match v {
        serde_json::Value::Null => Opened::Null,
        serde_json::Value::Bool(b) => Opened::Bool(b),
        serde_json::Value::Number(n) => Opened::Number(n),
        serde_json::Value::String(s) => Opened::Text(s),
        serde_json::Value::Array(items) => Opened::Array(items),
        serde_json::Value::Object(members) => Opened::Object(members.into_iter().collect()),
    }
}

/// Rebuilds a `serde_json::Value` as a [`Json`] tree, node by node.
fn json_from_value(v: serde_json::Value) -> (j: Json)
    ensures
        j@ == value_content(v),
    decreases value_content(v),
{
    match open_value(v) {
        Opened::Null => Json::Null,
        Opened::Bool(b) => Json::Bool(b),
        Opened::Number(n) => Json::Number(n),
        Opened::Text(s) => Json::Text(s),
        Opened::Array(items) => {
            let ghost children = value_content(v)->Array_0;
            let mut built: Vec<Json> = Vec::new();
            for item in it: items
                invariant
                    value_content(v) == JsonValue::Array(children),
                    children.len() == it.seq().len(),
                    forall|i: int|
                        0 <= i < children.len() ==> children[i] == value_content(
                            #[trigger] it.seq()[i],
                        ),
                    built@.len() == it.index(),
                    forall|i: int| 0 <= i < built@.len() ==> (#[trigger] built@[i])@ == children[i],
            {
                assert(decreases_to!(value_content(v) => value_content(v)->Array_0));
                built.push(json_from_value(item));
            }
            let j = Json::Array(built);
            assert(j@->Array_0 =~= children);
            j
        },
        Opened::Object(members) => {
            let ghost children = value_content(v)->Object_0;
            let mut built: Vec<(String, Json)> = Vec::new();
            for member in it: members
                invariant
                    value_content(v) == JsonValue::Object(children),
                    children.len() == it.seq().len(),
                    forall|i: int|
                        0 <= i < children.len() ==> children[i] == (
                            (#[trigger] it.seq()[i]).0@,
                            value_content(it.seq()[i].1),
                        ),
                    built@.len() == it.index(),
                    forall|i: int|
                        0 <= i < built@.len() ==> ((#[trigger] built@[i]).0@, built@[i].1@)
                            == children[i],
            {
                let ghost k: int = it.index();
                assert(decreases_to!(value_content(v) => value_content(v)->Object_0));
                assert(decreases_to!(children[k] => children[k].1));
                let (key, value) = member;
                built.push((key, json_from_value(value)));
            }
            let j = Json::Object(built);
            assert(j@->Object_0 =~= children);
            j
        },
    }
}

/// Parses `text` as one JSON document.
///
/// Returns the document that [`json_document`] names for `text`, and `None`
/// exactly where `text` is no JSON document.
pub fn parse_json(text: &str) -> (r: Option<Json>)
    ensures
        optional_json(r) == json_document(text@),
{
    match parse_value(text) {
        Ok(v) => Some(json_from_value(v)),
        Err(_) => None,
    }
}

} // verus!
