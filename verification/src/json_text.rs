//! The compact JSON text of a value, as `serde_json` renders it: the
//! library's value is handed to `serde_json` constructor by constructor,
//! and the crate renders the result.
use vstd::prelude::*;
use crate::json::{Json, JsonList, JsonMap, JsonNumber};

verus! {

#[verifier::external_type_specification]
#[verifier::external_body]
pub struct ExValue(serde_json::Value);

#[verifier::external_type_specification]
#[verifier::external_body]
#[verifier::reject_recursive_types(K)]
#[verifier::reject_recursive_types(V)]
pub struct ExValueMap<K, V>(serde_json::Map<K, V>);

/// `Value::Null`.
#[verifier::external_body]
fn value_null() -> (v: serde_json::Value) {
    serde_json::Value::Null
}

/// `Value::Bool`.
#[verifier::external_body]
fn value_bool(b: bool) -> (v: serde_json::Value) {
    serde_json::Value::Bool(b)
}

/// `Value::from(u64)`.
#[verifier::external_body]
fn value_u64(u: u64) -> (v: serde_json::Value) {
    serde_json::Value::from(u)
}

/// `Value::from(i64)`.
#[verifier::external_body]
fn value_i64(i: i64) -> (v: serde_json::Value) {
    serde_json::Value::from(i)
}

/// `serde_json::from_str`: the number written as `text` (`Value::Null`
/// where the crate refuses the text).
#[verifier::external_body]
fn value_number_text(text: &str) -> (v: serde_json::Value) {
    serde_json::from_str::<serde_json::Value>(text).unwrap_or(serde_json::Value::Null)
}

/// `Value::String`.
#[verifier::external_body]
fn value_string(s: String) -> (v: serde_json::Value) {
    serde_json::Value::String(s)
}

/// `Value::Array`.
#[verifier::external_body]
fn value_array(items: Vec<serde_json::Value>) -> (v: serde_json::Value) {
    serde_json::Value::Array(items)
}

/// `Map::new`.
#[verifier::external_body]
fn value_map_new() -> (m: serde_json::Map<String, serde_json::Value>) {
    serde_json::Map::new()
}

/// `Map::entry(..).or_insert(..)`: sets `k` to `v` unless `k` is present
/// (so the first entry of a key wins, as in the library's objects).
#[verifier::external_body]
fn value_map_put_first(m: &mut serde_json::Map<String, serde_json::Value>, k: String, v: serde_json::Value) {
    m.entry(k).or_insert(v);
}

/// `Value::Object`.
#[verifier::external_body]
fn value_object(m: serde_json::Map<String, serde_json::Value>) -> (v: serde_json::Value) {
    serde_json::Value::Object(m)
}

/// The `serde_json` value of `j`, one constructor per node.
fn serde_value(j: &Json) -> (v: serde_json::Value)
    decreases j,
{
    match j {
        Json::Null => value_null(),
        Json::Bool(b) => value_bool(*b),
        Json::Num(JsonNumber::PosInt(u)) => value_u64(*u),
        Json::Num(JsonNumber::NegInt(i)) => value_i64(*i),
        Json::Num(JsonNumber::Float(t)) => value_number_text(t.as_str()),
        Json::Str(s) => value_string(s.clone()),
        Json::Arr(l) => {
            let mut items: Vec<serde_json::Value> = Vec::new();
            serde_items(l, &mut items);
            value_array(items)
        },
        Json::Obj(m) => {
            let mut map = value_map_new();
            serde_entries(m, &mut map);
            value_object(map)
        },
    }
}

/// Appends the values of the items of `l`, in order.
fn serde_items(l: &JsonList, out: &mut Vec<serde_json::Value>)
    decreases l,
{
    match l {
        JsonList::Nil => {},
        JsonList::Cons(h, t) => {
            out.push(serde_value(h));
            serde_items(t, out);
        },
    }
}

/// Puts the entries of `m` into `out`, in order, the first of a key winning.
fn serde_entries(m: &JsonMap, out: &mut serde_json::Map<String, serde_json::Value>)
    decreases m,
{
    match m {
        JsonMap::Nil => {},
        JsonMap::Entry(k, v, rest) => {
            let value = serde_value(v);
            value_map_put_first(out, k.clone(), value);
            serde_entries(rest, out);
        },
    }
}

/// The compact JSON text of `j`, as `serde_json` renders the value.
pub uninterp spec fn compact_json(j: Json) -> Seq<char>;

/// `Value::to_string` (`Display`, compact) of the `serde_json` value of
/// `j`: the library's value converted constructor by constructor. The text
/// depends on `j` alone and is named [`compact_json`].
#[verifier::external_body]
pub(crate) fn compact_json_text(j: &Json) -> (s: String)
    ensures
        s@ == compact_json(*j),
{
    serde_value(j).to_string()
}

} // verus!
