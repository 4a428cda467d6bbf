//! JSON values: what they hold, and how they are read.
//!
//! The values are those of `serde_json`. What Verus is told of them is in the trusted items of this
//! file, over the names [`json_value`] and [`document_json`].

use crate::document::{document_fields, BsonValue};
use crate::ieee::Float64;
use mongodb::bson::Document;
use serde_json::Value;
use vstd::prelude::*;

verus! {

/// The value type of `serde_json`.
#[verifier::external_type_specification]
#[verifier::external_body]
pub struct ExValue(Value);

/// What a JSON value holds.
pub enum JsonValue {
    Nothing,
    /// A number: which integer it is, where it is written as one, and the double that stands for
    /// it.
    Number { integer: Option<int>, double: Float64 },
    Fields(Map<Seq<char>, JsonValue>),
    /// A value of any other kind, told apart from the others of these kinds by a number.
    Other(nat),
}

/// What a value holds.
pub uninterp spec fn json_value(value: Value) -> JsonValue;

/// The JSON form of a document with the fields, where it has one.
pub uninterp spec fn document_json(fields: Seq<(Seq<char>, BsonValue)>) -> Option<JsonValue>;

/// What the values of a list hold.
pub open spec fn json_values(values: Seq<Value>) -> Seq<JsonValue> {
    values.map_values(|value: Value| json_value(value))
}

/// The field of an object with the key; no other value has fields.
pub open spec fn json_field(value: JsonValue, key: Seq<char>) -> Option<JsonValue> {
    match value {
        JsonValue::Fields(fields) => if fields.dom().contains(key) {
            Some(fields[key])
        } else {
            None
        },
        _ => None,
    }
}

/// The number that a value is, as a double.
pub open spec fn json_number(value: JsonValue) -> Option<Float64> {
    match value {
        JsonValue::Number { double, .. } => Some(double),
        _ => None,
    }
}

/// The number that the field of an object with the key is, as a double.
pub open spec fn number_field(value: JsonValue, key: Seq<char>) -> Option<Float64> {
    match json_field(value, key) {
        Some(field) => json_number(field),
        None => None,
    }
}

/// `Value::Null` holds nothing.
#[verifier::external_body]
pub(crate) fn null_value() -> (r: Value)
    ensures
        json_value(r) == JsonValue::Nothing,
{
    Value::Null
}

/// `Value::get` finds the field of an object with the key, if there is one, and nothing in a value
/// that is no object.
#[verifier::external_body]
fn field<'a>(value: &'a Value, key: &str) -> (r: Option<&'a Value>)
    ensures
        match r {
            Some(found) => json_field(json_value(*value), key@) == Some(json_value(*found)),
            None => json_field(json_value(*value), key@) is None,
        },
{
    value.get(key)
}

/// `Value::as_f64` gives the double that stands for a number, and nothing for a value that is no
/// number.
#[verifier::external_body]
fn number(value: &Value) -> (r: Option<Float64>)
    ensures
        r == json_number(json_value(*value)),
{
    value.as_f64().map(|x| Float64 { bits: x.to_bits() })
}

/// `serde_json::to_value` of a document gives its JSON form, or an error. Which form that is, or
/// whether there is one, follows from the fields of the document.
#[verifier::external_body]
pub(crate) fn to_json(doc: &Document) -> (r: Option<Value>)
    ensures
        match r {
            Some(value) => document_json(document_fields(*doc)) == Some(json_value(value)),
            None => document_json(document_fields(*doc)) is None,
        },
{
    serde_json::to_value(doc).ok()
}

/// The number that the field of an object with the key is.
pub fn get_number(value: &Value, key: &str) -> (r: Option<Float64>)
    ensures
        r == number_field(json_value(*value), key@),
{
    match field(value, key) {
        Some(found) => number(found),
        None => None,
    }
}

/// What stands for the JSON form of a document: nothing, where it has none.
pub open spec fn form_or_nothing(form: Option<JsonValue>) -> JsonValue {
    match form {
        Some(form) => form,
        None => JsonValue::Nothing,
    }
}

/// The form, or null where there is none.
pub fn or_null(form: Option<Value>) -> (r: Value)
    ensures
        json_value(r) == match form {
            Some(value) => json_value(value),
            None => JsonValue::Nothing,
        },
{
    match form {
        Some(value) => value,
        None => null_value(),
    }
}

/// The JSON form of a document, or null where it has none.
pub fn json_of_document(doc: &Document) -> (r: Value)
    ensures
        json_value(r) == form_or_nothing(document_json(document_fields(*doc))),
{
    or_null(to_json(doc))
}

} // verus!
