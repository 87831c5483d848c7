//! JSON values, as the operator sends them to the API server: the values of `serde_json`.
//!
//! `serde_json` builds and holds them. What a value holds is described by [`JsonView`], and each of
//! the functions below says what the value that it builds holds.

use vstd::prelude::*;

verus! {

/// The JSON values of `serde_json`.
#[verifier::external_type_specification]
#[verifier::external_body]
pub struct ExValue(serde_json::Value);

/// The JSON objects of `serde_json`.
#[verifier::external_type_specification]
#[verifier::external_body]
#[verifier::reject_recursive_types(K)]
#[verifier::reject_recursive_types(V)]
pub struct ExMap<K, V>(serde_json::Map<K, V>);

/// What a JSON value holds. There is no `null`: what has no value is left out of its object.
pub enum JsonView {
    /// A string.
    Text(Seq<char>),
    /// A truth value.
    Bool(bool),
    /// A whole number.
    Number(int),
    /// An array.
    List(Seq<JsonView>),
    /// An object: the value of each of its keys.
    Object(Map<Seq<char>, JsonView>),
}

impl JsonView {
    /// The value under `key`, if this is an object with such a key.
    pub open spec fn get(self, key: Seq<char>) -> Option<JsonView> {
        match self {
            JsonView::Object(m) => if m.contains_key(key) {
                Some(m[key])
            } else {
                None
            },
            _ => None,
        }
    }
}

/// What a JSON value holds.
pub uninterp spec fn contents(v: serde_json::Value) -> JsonView;

/// What a JSON object holds: the value of each of its keys.
pub uninterp spec fn members(
    m: serde_json::Map<String, serde_json::Value>,
) -> Map<Seq<char>, JsonView>;

/// What each of the values holds.
pub open spec fn each(items: Seq<serde_json::Value>) -> Seq<JsonView> {
    items.map_values(|v: serde_json::Value| contents(v))
}

/// No members.
pub open spec fn none() -> Map<Seq<char>, JsonView> {
    Map::empty()
}

/// The members with a string under `key`, if there is one; else as they are.
pub open spec fn with_text(
    m: Map<Seq<char>, JsonView>,
    key: Seq<char>,
    value: Option<Seq<char>>,
) -> Map<Seq<char>, JsonView> {
    match value {
        Some(s) => m.insert(key, JsonView::Text(s)),
        None => m,
    }
}

/// The members with a value under `key`, if there is one; else as they are.
pub open spec fn with(
    m: Map<Seq<char>, JsonView>,
    key: Seq<char>,
    value: Option<JsonView>,
) -> Map<Seq<char>, JsonView> {
    match value {
        Some(j) => m.insert(key, j),
        None => m,
    }
}

// ---------------------------------------------------------------------------------------------
// Calls of serde_json
// ---------------------------------------------------------------------------------------------

/// A string, by the `From<&str>` of `serde_json::Value`: it is taken to hold these characters.
#[verifier::external_body]
pub(crate) fn text(s: &str) -> (r: serde_json::Value)
    ensures
        contents(r) == JsonView::Text(s@),
{
    serde_json::Value::from(s)
}

/// A truth value, by the `From<bool>` of `serde_json::Value`: it is taken to hold this one.
#[verifier::external_body]
pub(crate) fn boolean(b: bool) -> (r: serde_json::Value)
    ensures
        contents(r) == JsonView::Bool(b),
{
    serde_json::Value::from(b)
}

/// A number, by the `From<i64>` of `serde_json::Value`: it is taken to hold this number.
#[verifier::external_body]
pub(crate) fn number(n: i64) -> (r: serde_json::Value)
    ensures
        contents(r) == JsonView::Number(n as int),
{
    serde_json::Value::from(n)
}

/// An array, by the `From<Vec<_>>` of `serde_json::Value`: it is taken to hold the items, in their
/// order.
#[verifier::external_body]
pub(crate) fn list(items: Vec<serde_json::Value>) -> (r: serde_json::Value)
    ensures
        contents(r) == JsonView::List(each(items@)),
{
    serde_json::Value::from(items)
}

/// An object, by the `From<Map<String, Value>>` of `serde_json::Value`: it is taken to hold the
/// members of the map.
#[verifier::external_body]
pub(crate) fn object(m: serde_json::Map<String, serde_json::Value>) -> (r: serde_json::Value)
    ensures
        contents(r) == JsonView::Object(members(m)),
{
    serde_json::Value::from(m)
}

/// The members of an empty object, by `serde_json::Map::new`: there are none.
#[verifier::external_body]
pub(crate) fn empty() -> (r: serde_json::Map<String, serde_json::Value>)
    ensures
        members(r) == none(),
{
    serde_json::Map::new()
}

/// Sets the value of a key, by `serde_json::Map::insert`: the key is taken to have this value after
/// the call, whatever it had before, and every other key to have kept its own.
#[verifier::external_body]
pub(crate) fn put(
    m: &mut serde_json::Map<String, serde_json::Value>,
    key: &str,
    value: serde_json::Value,
)
    ensures
        members(*final(m)) == members(*old(m)).insert(key@, contents(value)),
{
    m.insert(key.to_string(), value);
}

/// Sets a key to a string, if there is one.
pub(crate) fn put_text(
    m: &mut serde_json::Map<String, serde_json::Value>,
    key: &str,
    value: &Option<String>,
)
    ensures
        members(*final(m)) == with_text(members(*old(m)), key@, value.deep_view()),
{
    if let Some(s) = value {
        put(m, key, text(s.as_str()));
    }
}

} // verus!
