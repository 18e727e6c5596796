//! JSON values of `serde_json`, and what they say.
//!
//! A `serde_json::Value` is opaque to the proofs. [`json`] gives what it says
//! as a mathematical value, and the functions below, which make the calls into
//! `serde_json`, are the only ones that build or read one.

use vstd::prelude::*;

verus! {

/// A JSON value, built and read through the functions of this module.
#[verifier::external_type_specification]
#[verifier::external_body]
pub struct ExValue(serde_json::Value);

/// The collection behind a JSON object.
#[verifier::external_type_specification]
#[verifier::external_body]
#[verifier::reject_recursive_types(K)]
#[verifier::reject_recursive_types(V)]
pub struct ExObject<K, V>(serde_json::Map<K, V>);

/// A JSON object under construction.
pub type Object = serde_json::Map<String, serde_json::Value>;

/// What a JSON value says.
pub enum Json {
    /// `null`.
    Null,
    /// `true` or `false`.
    Bool(bool),
    /// A number without a fraction.
    Int(int),
    /// Any other number, by its text.
    Float(Seq<char>),
    /// A string.
    Text(Seq<char>),
    /// An array.
    Array(Seq<Json>),
    /// An object.
    Object(Entries),
}

/// What a JSON object says of each of its keys.
pub type Entries = Map<Seq<char>, Json>;

/// What a `serde_json::Value` holds.
pub uninterp spec fn json(value: serde_json::Value) -> Json;

/// What a `serde_json::Map` holds: the value under each key.
pub uninterp spec fn entries(object: Object) -> Entries;

/// The compact text of a JSON value: what its `Display` writes.
///
/// Objects are kept in key order (`serde_json` without `preserve_order`), so
/// the text is a function of what the value says.
pub uninterp spec fn compact(value: Json) -> Seq<char>;

/// What each value of a list says.
pub open spec fn jsons(values: Seq<serde_json::Value>) -> Seq<Json> {
    values.map_values(|v: serde_json::Value| json(v))
}

/// What the JSON form of optional tool arguments says: `null` when absent.
pub open spec fn arguments_json(arguments: Option<Object>) -> Json {
    match arguments {
        Some(object) => Json::Object(entries(object)),
        None => Json::Null,
    }
}

/// Calls `serde_json::Map::new`: an object without keys.
#[verifier::external_body]
pub(crate) fn object_new() -> (object: Object)
    ensures
        entries(object) == Entries::empty(),
{
    serde_json::Map::new()
}

/// Calls `serde_json::Map::insert`: the value stands under the key, in place
/// of any value that stood there, and every other key keeps its own.
#[verifier::external_body]
pub(crate) fn object_insert(object: &mut Object, key: &str, value: serde_json::Value)
    ensures
        entries(*final(object)) == entries(*old(object)).insert(key@, json(value)),
{
    object.insert(key.to_string(), value);
}

/// Makes `serde_json::Value::Null`.
#[verifier::external_body]
pub(crate) fn json_null() -> (value: serde_json::Value)
    ensures
        json(value) == Json::Null,
{
    serde_json::Value::Null
}

/// Makes `serde_json::Value::Bool` of the given truth value.
#[verifier::external_body]
pub(crate) fn json_bool(b: bool) -> (value: serde_json::Value)
    ensures
        json(value) == Json::Bool(b),
{
    serde_json::Value::Bool(b)
}

/// Calls `serde_json::Value::from` on an `i64`: the same number.
#[verifier::external_body]
pub(crate) fn json_i64(n: i64) -> (value: serde_json::Value)
    ensures
        json(value) == Json::Int(n as int),
{
    serde_json::Value::from(n)
}

/// Calls `serde_json::Value::from` on a `usize`: the same number.
#[verifier::external_body]
pub(crate) fn json_usize(n: usize) -> (value: serde_json::Value)
    ensures
        json(value) == Json::Int(n as int),
{
    serde_json::Value::from(n)
}

/// Calls `serde_json::Value::from` on a `&str`: the same text.
#[verifier::external_body]
pub(crate) fn json_text(s: &str) -> (value: serde_json::Value)
    ensures
        json(value) == Json::Text(s@),
{
    serde_json::Value::from(s)
}

/// Makes `serde_json::Value::Array` of the given values, in order.
#[verifier::external_body]
pub(crate) fn json_array(values: Vec<serde_json::Value>) -> (value: serde_json::Value)
    ensures
        json(value) == Json::Array(jsons(values@)),
{
    serde_json::Value::Array(values)
}

/// Makes `serde_json::Value::Object` of the given object.
#[verifier::external_body]
pub(crate) fn json_object(object: Object) -> (value: serde_json::Value)
    ensures
        json(value) == Json::Object(entries(object)),
{
    serde_json::Value::Object(object)
}

/// Calls `serde_json::Value::clone`: a value that says the same.
#[verifier::external_body]
pub(crate) fn json_clone(value: &serde_json::Value) -> (copy: serde_json::Value)
    ensures
        json(copy) == json(*value),
{
    value.clone()
}

/// Calls `to_string` on a `serde_json::Value`: its compact text.
#[verifier::external_body]
pub(crate) fn json_compact(value: &serde_json::Value) -> (out: String)
    ensures
        out@ == compact(json(*value)),
{
    value.to_string()
}

/// Calls `serde_json::to_value` on optional tool arguments: `null` for none,
/// else an object with the same entries. Neither can fail.
#[verifier::external_body]
pub(crate) fn arguments_to_value(arguments: &Option<Object>) -> (out: Option<serde_json::Value>)
    ensures
        out is Some,
        json(out->0) == arguments_json(*arguments),
{
    serde_json::to_value(arguments).ok()
}

} // verus!
