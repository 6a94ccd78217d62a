//! A JSON document as plain values, and the parser that reads one from text.
//!
//! Parsing is done by `serde_json`; the rest of the crate works on
//! [`JsonValue`], which holds what the parser found.

use vstd::prelude::*;

verus! {

/// A JSON value.
#[derive(Debug, PartialEq)]
pub enum JsonValue {
    Null,
    Bool(bool),
    /// A number: its value where it is a non-negative integer that fits 64
    /// bits, `None` where it is negative or has a fraction or an exponent.
    Number(Option<u64>),
    String(String),
    Array(Vec<JsonValue>),
    /// An object: its members, name and value. No name occurs twice in an
    /// object that the parser made.
    Object(Vec<(String, JsonValue)>),
}

/// The mathematical model of a JSON value.
pub enum JsonModel {
    Null,
    Bool(bool),
    Number(Option<u64>),
    String(Seq<char>),
    Array(Seq<JsonModel>),
    Object(Seq<(Seq<char>, JsonModel)>),
}

/// The model of a JSON value.
pub open spec fn model_of(value: JsonValue) -> JsonModel
    decreases value,
{
    match value {
        JsonValue::Null => JsonModel::Null,
        JsonValue::Bool(b) => JsonModel::Bool(b),
        JsonValue::Number(n) => JsonModel::Number(n),
        JsonValue::String(s) => JsonModel::String(s@),
        JsonValue::Array(items) => JsonModel::Array(
            Seq::new(
                items@.len(),
                |i: int|
                    if 0 <= i < items@.len() {
                        model_of(items@[i])
                    } else {
                        JsonModel::Null
                    },
            ),
        ),
        JsonValue::Object(members) => JsonModel::Object(
            Seq::new(
                members@.len(),
                |i: int|
                    if 0 <= i < members@.len() {
                        (members@[i].0@, model_of(members@[i].1))
                    } else {
                        (Seq::empty(), JsonModel::Null)
                    },
            ),
        ),
    }
}

impl View for JsonValue {
    type V = JsonModel;

    open spec fn view(&self) -> JsonModel {
        model_of(*self)
    }
}

/// The model of an array holds the models of its items.
pub proof fn lemma_array_view(value: JsonValue)
    requires
        value is Array,
    ensures
        value@ is Array,
        value@->Array_0.len() == value->Array_0@.len(),
        forall|i: int|
            0 <= i < value->Array_0@.len() ==> (#[trigger] value@->Array_0[i])
                == value->Array_0@[i]@,
{
}

/// The model of an object holds the names and the models of its members.
pub proof fn lemma_object_view(value: JsonValue)
    requires
        value is Object,
    ensures
        value@ is Object,
        value@->Object_0.len() == value->Object_0@.len(),
        forall|i: int|
            0 <= i < value->Object_0@.len() ==> (#[trigger] value@->Object_0[i]) == (
                value->Object_0@[i].0@,
                value->Object_0@[i].1@,
            ),
{
}

/// `serde_json::Value`, a parsed document; nothing is known of what is in it
/// but through [`document_model`].
#[verifier::external_type_specification]
#[verifier::external_body]
pub struct ExValue(serde_json::Value);

/// `serde_json::Error`, why a text was not parsed; nothing is read from it.
#[verifier::external_type_specification]
#[verifier::external_body]
pub struct ExError(serde_json::Error);

/// The document that `serde_json::from_str` reads from a text, as a model;
/// `None` where the text is not one JSON value.
pub uninterp spec fn json_document(text: Seq<char>) -> Option<JsonModel>;

/// What a `serde_json::Value` holds, as a model.
pub uninterp spec fn document_model(value: serde_json::Value) -> JsonModel;

/// `serde_json::from_str`, read as a `serde_json::Value`: the result is the
/// document of the text, or an error where the text is not one JSON value.
#[verifier::external_body]
fn read_document(text: &str) -> (r: Result<serde_json::Value, serde_json::Error>)
    ensures
        match r {
            Ok(value) => json_document(text@) == Some(document_model(value)),
            Err(_) => json_document(text@) is None,
        },
{
    serde_json::from_str::<serde_json::Value>(text)
}

/// The top of a parsed document: which kind of value it is, with what it
/// holds; the items of an array and the members of an object are handed on
/// as they are.
enum JsonNode<'a> {
    Null,
    Bool(bool),
    Number(Option<u64>),
    String(&'a String),
    Array(&'a Vec<serde_json::Value>),
    Object(Vec<(&'a String, &'a serde_json::Value)>),
}

/// The model of a document, given its top and the models of what is below.
spec fn node_model(node: JsonNode) -> JsonModel {
    match node {
        JsonNode::Null => JsonModel::Null,
        JsonNode::Bool(b) => JsonModel::Bool(b),
        JsonNode::Number(n) => JsonModel::Number(n),
        JsonNode::String(s) => JsonModel::String(s@),
        JsonNode::Array(items) => JsonModel::Array(
            Seq::new(items@.len(), |i: int| document_model(items@[i])),
        ),
        JsonNode::Object(members) => JsonModel::Object(
            Seq::new(members@.len(), |i: int| (members@[i].0@, document_model(*members@[i].1))),
        ),
    }
}

/// Tells the variants of a `serde_json::Value` apart and hands out what the
/// variant holds: a number as `serde_json::Number::as_u64` reads it, the
/// members of an object in the order in which its map yields them. What the
/// value holds is what its top and the parts below it hold.
#[verifier::external_body]
fn value_node<'a>(value: &'a serde_json::Value) -> (r: JsonNode<'a>)
    ensures
        document_model(*value) == node_model(r),
{
    match value {
        serde_json::Value::Null => JsonNode::Null,
        serde_json::Value::Bool(b) => JsonNode::Bool(*b),
        serde_json::Value::Number(n) => JsonNode::Number(n.as_u64()),
        serde_json::Value::String(s) => JsonNode::String(s),
        serde_json::Value::Array(a) => JsonNode::Array(a),
        serde_json::Value::Object(m) => JsonNode::Object(m.iter().collect()),
    }
}

/// Copies a parsed document into a [`JsonValue`].
fn copy_document(value: &serde_json::Value) -> (r: JsonValue)
    ensures
        r@ == document_model(*value),
    decreases document_model(*value),
{
    match value_node(value) {
        JsonNode::Null => JsonValue::Null,
        JsonNode::Bool(b) => JsonValue::Bool(b),
        JsonNode::Number(n) => JsonValue::Number(n),
        JsonNode::String(s) => JsonValue::String(s.clone()),
        JsonNode::Array(items) => {
            let ghost model = document_model(*value)->Array_0;
            let mut copies: Vec<JsonValue> = Vec::new();
            let mut i: usize = 0;
            while i < items.len()
                invariant
                    i <= items.len(),
                    document_model(*value) == JsonModel::Array(model),
                    model.len() == items@.len(),
                    forall|j: int|
                        0 <= j < items@.len() ==> #[trigger] model[j] == document_model(items@[j]),
                    copies@.len() == i,
                    forall|j: int| 0 <= j < i ==> (#[trigger] copies@[j])@ == model[j],
                decreases items.len() - i,
            {
                proof {
                    assert(model[i as int] == document_model(items@[i as int]));
                    let whole = document_model(*value);
                    assert(decreases_to!(whole => whole->Array_0));
                    assert(decreases_to!(whole->Array_0 => whole->Array_0[i as int]));
                }
                copies.push(copy_document(&items[i]));
                i += 1;
            }
            let r = JsonValue::Array(copies);
            proof {
                lemma_array_view(r);
                assert(r@->Array_0 =~= model);
            }
            r
        },
        JsonNode::Object(members) => {
            let ghost model = document_model(*value)->Object_0;
            let mut copies: Vec<(String, JsonValue)> = Vec::new();
            let mut i: usize = 0;
            while i < members.len()
                invariant
                    i <= members.len(),
                    document_model(*value) == JsonModel::Object(model),
                    model.len() == members@.len(),
                    forall|j: int|
                        0 <= j < members@.len() ==> #[trigger] model[j] == (
                            members@[j].0@,
                            document_model(*members@[j].1),
                        ),
                    copies@.len() == i,
                    forall|j: int|
                        0 <= j < i ==> ((#[trigger] copies@[j]).0@, copies@[j].1@) == model[j],
                decreases members.len() - i,
            {
                proof {
                    assert(model[i as int].1 == document_model(*members@[i as int].1));
                    let whole = document_model(*value);
                    assert(decreases_to!(whole => whole->Object_0));
                    assert(decreases_to!(whole->Object_0 => whole->Object_0[i as int]));
                    assert(decreases_to!(whole->Object_0[i as int] => whole->Object_0[i as int].1));
                }
                let name = members[i].0.clone();
                let below = copy_document(members[i].1);
                copies.push((name, below));
                i += 1;
            }
            let r = JsonValue::Object(copies);
            proof {
                lemma_object_view(r);
                assert(r@->Object_0 =~= model);
            }
            r
        },
    }
}

/// Parses a text as one JSON value. Returns `None` where the text is not one.
pub fn parse_json(text: &str) -> (r: Option<JsonValue>)
    ensures
        match r {
            Some(value) => json_document(text@) == Some(value@),
            None => json_document(text@) is None,
        },
{
    match read_document(text) {
        Ok(value) => Some(copy_document(&value)),
        Err(_) => None,
    }
}

} // verus!
