//! JSON text to documents and back, by way of `serde_json`.
//!
//! `serde_json` parses and prints. Its `Value` is taken apart and put
//! together one layer at a time by four small functions that are not
//! verified; the walk over the layers, in both directions, is.
//!
//! The library builds `serde_json` with its feature `preserve_order`, so that
//! an object keeps its entries in the order of the text.

use crate::json::{Json, JsonValue};
use serde_json::{Number, Value};
use vstd::prelude::*;

verus! {

/// `serde_json::Value`: a parsed JSON text. Nothing is known of a value but
/// the document that it holds, [`value_model`].
#[verifier::external_type_specification]
#[verifier::external_body]
pub struct ExValue(serde_json::Value);

/// The document that a `serde_json::Value` holds: its variant, and for an
/// array or an object the documents that its items or entries hold, in the
/// order in which the value hands them out.
pub uninterp spec fn value_model(value: Value) -> JsonValue;

/// The document that `serde_json::from_str` reads from `text`; `None` where it
/// reports an error.
pub uninterp spec fn parsed_json(text: Seq<char>) -> Option<JsonValue>;

/// The text that `serde_json::to_string_pretty` prints for `doc`; `None` where
/// it reports an error.
pub uninterp spec fn pretty_json(doc: JsonValue) -> Option<Seq<char>>;

/// The top layer of a `serde_json::Value`: its variant, with the layers below
/// still closed.
enum Layer {
    Null,
    Bool(bool),
    Number(Number),
    String(String),
    Array(Vec<Value>),
    Object(Vec<(String, Value)>),
}

impl Layer {
    /// The document that the layer holds.
    spec fn model(self) -> JsonValue {
        match self {
            Layer::Null => JsonValue::Null,
            Layer::Bool(b) => JsonValue::Bool(b),
            Layer::Number(n) => JsonValue::Number(n),
            Layer::String(s) => JsonValue::String(s@),
            Layer::Array(items) => JsonValue::Array(
                Seq::new(items@.len(), |i: int| value_model(items@[i])),
            ),
            Layer::Object(entries) => JsonValue::Object(
                Seq::new(entries@.len(), |i: int| (entries@[i].0@, value_model(entries@[i].1))),
            ),
        }
    }
}

/// Takes the top layer off a `serde_json::Value`: one arm for each variant of
/// the enum, each moving the variant's field. The entries of an object are
/// those that `serde_json::Map::into_iter` hands out, in its order.
///
/// Not proved: that the layer holds what the value held, and that no key
/// occurs twice among the entries of an object, which come out of a map.
#[verifier::external_body]
fn open_value(value: Value) -> (layer: Layer)
    ensures
        layer.model() == value_model(value),
        layer.model() matches JsonValue::Object(entries) ==> JsonValue::distinct_keys(entries),
{
    match value {
        Value::Null => Layer::Null,
        Value::Bool(b) => Layer::Bool(b),
        Value::Number(n) => Layer::Number(n),
        Value::String(s) => Layer::String(s),
        Value::Array(items) => Layer::Array(items),
        Value::Object(entries) => Layer::Object(entries.into_iter().collect()),
    }
}

/// Builds a `serde_json::Value` from its top layer: one arm for each variant,
/// each moving the variant's field. The entries of an object are collected
/// into a `serde_json::Map`, which inserts them one by one in their order.
///
/// Not proved: that the value holds what the layer held. With a key that
/// occurs twice the map would keep one entry only, so such a layer is left
/// out.
#[verifier::external_body]
fn close_value(layer: Layer) -> (value: Value)
    requires
        layer.model() matches JsonValue::Object(entries) ==> JsonValue::distinct_keys(entries),
    ensures
        value_model(value) == layer.model(),
{
    match layer {
        Layer::Null => Value::Null,
        Layer::Bool(b) => Value::Bool(b),
        Layer::Number(n) => Value::Number(n),
        Layer::String(s) => Value::String(s),
        Layer::Array(items) => Value::Array(items),
        Layer::Object(entries) => Value::Object(entries.into_iter().collect()),
    }
}

/// Calls `serde_json::from_str` for a `serde_json::Value`.
///
/// Not proved: which document the text stands for, and which texts are
/// refused. Both have the name [`parsed_json`].
#[verifier::external_body]
fn parse_value(text: &str) -> (parsed: Option<Value>)
    ensures
        match parsed {
            Some(value) => parsed_json(text@) == Some(value_model(value)),
            None => parsed_json(text@) is None,
        },
{
    serde_json::from_str(text).ok()
}

/// Calls `serde_json::to_string_pretty` on a `serde_json::Value`.
///
/// Not proved: the text that comes out. It has the name [`pretty_json`].
#[verifier::external_body]
fn print_value(value: &Value) -> (printed: Option<String>)
    ensures
        match printed {
            Some(text) => pretty_json(value_model(*value)) == Some(text@),
            None => pretty_json(value_model(*value)) is None,
        },
{
    serde_json::to_string_pretty(value).ok()
}

/// The document that a `serde_json::Value` holds, as a [`Json`].
pub fn from_value(value: Value) -> (doc: Json)
    ensures
        doc@ == value_model(value),
        doc@.well_formed(),
    decreases value_model(value),
{
    let ghost whole = value_model(value);
    match open_value(value) {
        Layer::Null => Json::Null,
        Layer::Bool(b) => Json::Bool(b),
        Layer::Number(n) => Json::Number(n),
        Layer::String(s) => Json::String(s),
        Layer::Array(items) => {
            let ghost closed = items@;
            let mut docs: Vec<Json> = Vec::new();
            for item in iter: items
                invariant
                    whole == value_model(value),
                    whole == JsonValue::Array(whole->Array_0),
                    whole->Array_0.len() == closed.len(),
                    forall|j: int| 0 <= j < closed.len() ==> whole->Array_0[j] == value_model(closed[j]),
                    iter.seq() == closed,
                    docs@.len() == iter.index(),
                    forall|j: int| 0 <= j < docs@.len() ==> docs@[j]@ == value_model(closed[j]),
                    forall|j: int| 0 <= j < docs@.len() ==> docs@[j]@.well_formed(),
            {
                proof {
                    assert(decreases_to!(whole => whole->Array_0));
                    assert(decreases_to!(whole->Array_0 => whole->Array_0[docs@.len() as int]));
                }
                docs.push(from_value(item));
            }
            let doc = Json::Array(docs);
            assert(doc@->Array_0 =~= whole->Array_0);
            doc
        },
        Layer::Object(entries) => {
            let ghost closed = entries@;
            let mut pairs: Vec<(String, Json)> = Vec::new();
            for entry in iter: entries
                invariant
                    whole == value_model(value),
                    whole == JsonValue::Object(whole->Object_0),
                    whole->Object_0.len() == closed.len(),
                    forall|j: int|
                        0 <= j < closed.len() ==> whole->Object_0[j] == (
                            closed[j].0@,
                            value_model(closed[j].1),
                        ),
                    iter.seq() == closed,
                    pairs@.len() == iter.index(),
                    forall|j: int|
                        0 <= j < pairs@.len() ==> (pairs@[j].0@, pairs@[j].1@)
                            == whole->Object_0[j],
                    forall|j: int| 0 <= j < pairs@.len() ==> pairs@[j].1@.well_formed(),
            {
                proof {
                    assert(decreases_to!(whole => whole->Object_0));
                    assert(decreases_to!(whole->Object_0 => whole->Object_0[pairs@.len() as int]));
                    assert(decreases_to!(whole->Object_0[pairs@.len() as int] =>
                        whole->Object_0[pairs@.len() as int].1));
                }
                let (key, child) = entry;
                pairs.push((key, from_value(child)));
            }
            let doc = Json::Object(pairs);
            assert(doc@->Object_0 =~= whole->Object_0);
            doc
        },
    }
}

/// A `serde_json::Value` that holds the document `doc`.
pub fn to_value(doc: &Json) -> (value: Value)
    requires
        doc@.well_formed(),
    ensures
        value_model(value) == doc@,
    decreases doc,
{
    match doc {
        Json::Null => close_value(Layer::Null),
        Json::Bool(b) => close_value(Layer::Bool(*b)),
        Json::Number(n) => close_value(Layer::Number(n.clone())),
        Json::String(s) => close_value(Layer::String(s.clone())),
        Json::Array(items) => {
            let mut values: Vec<Value> = Vec::new();
            let mut i: usize = 0;
            while i < items.len()
                invariant
                    doc@.well_formed(),
                    *doc == Json::Array(*items),
                    i <= items@.len(),
                    values@.len() == i,
                    forall|j: int| 0 <= j < i ==> value_model(values@[j]) == items@[j]@,
                decreases items@.len() - i,
            {
                assert(doc@->Array_0[i as int].well_formed());
                values.push(to_value(&items[i]));
                i += 1;
            }
            let layer = Layer::Array(values);
            assert(layer.model()->Array_0 =~= doc@->Array_0);
            close_value(layer)
        },
        Json::Object(entries) => {
            let mut pairs: Vec<(String, Value)> = Vec::new();
            let mut i: usize = 0;
            while i < entries.len()
                invariant
                    doc@.well_formed(),
                    *doc == Json::Object(*entries),
                    i <= entries@.len(),
                    pairs@.len() == i,
                    forall|j: int|
                        0 <= j < i ==> (pairs@[j].0@, value_model(pairs@[j].1)) == (
                            entries@[j].0@,
                            entries@[j].1@,
                        ),
                decreases entries@.len() - i,
            {
                assert(doc@->Object_0[i as int].1.well_formed());
                pairs.push((entries[i].0.clone(), to_value(&entries[i].1)));
                i += 1;
            }
            let layer = Layer::Object(pairs);
            assert(layer.model()->Object_0 =~= doc@->Object_0);
            close_value(layer)
        },
    }
}

/// Reads a JSON text. `None` where the text is no JSON.
pub fn parse_document(text: &str) -> (parsed: Option<Json>)
    ensures
        match parsed {
            Some(doc) => parsed_json(text@) == Some(doc@) && doc@.well_formed(),
            None => parsed_json(text@) is None,
        },
{
    match parse_value(text) {
        Some(value) => Some(from_value(value)),
        None => None,
    }
}

/// Prints a document as indented JSON text. `None` where the printer reports
/// an error.
pub fn render_document(doc: &Json) -> (printed: Option<String>)
    requires
        doc@.well_formed(),
    ensures
        match printed {
            Some(text) => pretty_json(doc@) == Some(text@),
            None => pretty_json(doc@) is None,
        },
{
    let value = to_value(doc);
    print_value(&value)
}

} // verus!
