//! JSON values of `serde_json`, seen through what they hold.
use vstd::prelude::*;

verus! {

/// What a JSON value holds; a number is held as the `serde_json::Number` it is.
pub enum Json {
    Null,
    Bool(bool),
    Number(serde_json::Number),
    Str(Seq<char>),
    Array(Seq<Json>),
    Object(Map<Seq<char>, Json>),
}

/// `serde_json::Value`, a JSON value; what it holds is `json_view`.
#[verifier::external_type_specification]
#[verifier::external_body]
pub struct ExValue(serde_json::Value);

/// `serde_json::Number`, a JSON number; it is carried through as it is.
#[verifier::external_type_specification]
#[verifier::external_body]
pub struct ExNumber(serde_json::Number);

/// `serde_json::Map`, a JSON object; what it holds is `json_object_view`.
#[verifier::external_type_specification]
#[verifier::external_body]
#[verifier::reject_recursive_types(K)]
#[verifier::reject_recursive_types(V)]
pub struct ExJsonMap<K, V>(serde_json::Map<K, V>);

/// What a `serde_json::Value` holds: its kind, and its boolean, number, string, items in
/// order, or entries by key.
pub uninterp spec fn json_view(v: serde_json::Value) -> Json;

/// What a `serde_json::Map` (a JSON object) holds: its entries, by key.
pub uninterp spec fn json_object_view(m: serde_json::Map<String, serde_json::Value>) -> Map<
    Seq<char>,
    Json,
>;

/// `Value::get` with a string key: on an object, the entry under `key` where there is one;
/// on any other value, `None`.
#[verifier::external_body]
pub(crate) fn json_get<'a>(v: &'a serde_json::Value, key: &str) -> (r: Option<&'a serde_json::Value>)
    ensures
        match json_view(*v) {
            Json::Object(m) => {
                &&& (r is Some <==> m.contains_key(key@))
                &&& (r matches Some(x) ==> json_view(*x) == m[key@])
            },
            _ => r is None,
        },
{
    v.get(key)
}

/// `Value::as_object`: the map of an object, `None` for any other value.
#[verifier::external_body]
pub(crate) fn json_as_object(v: &serde_json::Value) -> (r: Option<
    &serde_json::Map<String, serde_json::Value>,
>)
    ensures
        r is Some <==> json_view(*v) is Object,
        r matches Some(m) ==> json_view(*v) == Json::Object(json_object_view(*m)),
{
    v.as_object()
}

/// `Map::contains_key`: whether the object has an entry under `key`.
#[verifier::external_body]
pub(crate) fn json_contains_key(m: &serde_json::Map<String, serde_json::Value>, key: &String) -> (r:
    bool)
    ensures
        r == json_object_view(*m).contains_key(key@),
{
    m.contains_key(key)
}

/// `Value::Null`.
#[verifier::external_body]
pub(crate) fn json_null() -> (r: serde_json::Value)
    ensures
        json_view(r) == Json::Null,
{
    serde_json::Value::Null
}

/// `Value::String`: the JSON string holding `s`.
#[verifier::external_body]
pub(crate) fn json_string(s: String) -> (r: serde_json::Value)
    ensures
        json_view(r) == Json::Str(s@),
{
    serde_json::Value::String(s)
}

/// `Value::Object`: the JSON object holding the entries of `m`.
#[verifier::external_body]
pub(crate) fn json_from_object(m: serde_json::Map<String, serde_json::Value>) -> (r: serde_json::Value)
    ensures
        json_view(r) == Json::Object(json_object_view(m)),
{
    serde_json::Value::Object(m)
}

/// The map of an object value (`Ok`), or the value itself when it is no object (`Err`).
#[verifier::external_body]
pub(crate) fn json_into_object(v: serde_json::Value) -> (r: Result<
    serde_json::Map<String, serde_json::Value>,
    serde_json::Value,
>)
    ensures
        r is Ok <==> json_view(v) is Object,
        r matches Ok(m) ==> json_view(v) == Json::Object(json_object_view(m)),
        r matches Err(x) ==> x == v,
{
    match v {
        serde_json::Value::Object(m) => Ok(m),
        other => Err(other),
    }
}

/// `<Value as Clone>::clone`: a value holding the same JSON.
pub assume_specification[ <serde_json::Value as Clone>::clone ](v: &serde_json::Value) -> (r:
    serde_json::Value)
    ensures
        json_view(r) == json_view(*v),
;

/// `Map::new`: the empty object.
#[verifier::external_body]
pub(crate) fn json_map_new() -> (r: serde_json::Map<String, serde_json::Value>)
    ensures
        json_object_view(r).dom().is_empty(),
{
    serde_json::Map::new()
}

/// `Map::insert`: the entry under `k` becomes `v`, whether or not there was one.
#[verifier::external_body]
pub(crate) fn json_map_insert(m: &mut serde_json::Map<String, serde_json::Value>, k: String, v: serde_json::Value)
    ensures
        json_object_view(*final(m)) == json_object_view(*old(m)).insert(k@, json_view(v)),
{
    m.insert(k, v);
}

/// `Map::remove`: takes the entry under `key` out of the object and hands back its value.
#[verifier::external_body]
pub(crate) fn json_map_remove(m: &mut serde_json::Map<String, serde_json::Value>, key: &str) -> (r: Option<
    serde_json::Value,
>)
    ensures
        json_object_view(*final(m)) == json_object_view(*old(m)).remove(key@),
        r is Some <==> json_object_view(*old(m)).contains_key(key@),
        r matches Some(x) ==> json_view(x) == json_object_view(*old(m))[key@],
{
    m.remove(key)
}

} // verus!
