//! JSON documents.
//!
//! A document is a `serde_json::Value`. Its contents are spoken of as a
//! [`JsonTree`], and each operation on it is one call into `serde_json`.

use serde_json::Value;
use vstd::prelude::*;

verus! {

/// A JSON document, any node of the tree.
#[verifier::external_type_specification]
#[verifier::external_body]
pub struct ExValue(Value);

/// The members of a JSON object.
#[verifier::external_type_specification]
#[verifier::external_body]
#[verifier::reject_recursive_types(K)]
#[verifier::reject_recursive_types(V)]
pub struct ExMembers<K, V>(serde_json::Map<K, V>);

/// Why a document could not be written.
#[verifier::external_type_specification]
#[verifier::external_body]
pub struct ExJsonError(serde_json::Error);

/// A JSON number: an unsigned integer, a negative integer, or the bits of a
/// finite binary64 number.
pub enum JsonNumber {
    Unsigned(u64),
    Negative(i64),
    Binary(u64),
}

/// What a JSON document holds.
#[verifier::ext_equal]
pub enum JsonTree {
    Null,
    Bool(bool),
    Number(JsonNumber),
    Str(Seq<char>),
    Array(Seq<JsonTree>),
    Object(Map<Seq<char>, JsonTree>),
}

/// What a `serde_json::Value` holds.
pub uninterp spec fn json_tree(value: Value) -> JsonTree;

/// What a `serde_json::Map` holds.
pub uninterp spec fn json_members(members: serde_json::Map<String, Value>) -> Map<Seq<char>, JsonTree>;

/// The bytes that `serde_json::to_vec` writes for a document, if it can write it.
/// An object keeps its members sorted by key, so they depend on the tree alone.
pub uninterp spec fn json_bytes(tree: JsonTree) -> Option<Seq<u8>>;

/// The member of a document under `key`; only objects have members.
pub open spec fn member(tree: JsonTree, key: Seq<char>) -> Option<JsonTree> {
    match tree {
        JsonTree::Object(members) => if members.contains_key(key) {
            Some(members[key])
        } else {
            None
        },
        _ => None,
    }
}

/// No members at all.
pub open spec fn empty_members() -> Map<Seq<char>, JsonTree> {
    Map::empty()
}

/// The trees of a list of documents.
pub open spec fn json_trees(values: Seq<Value>) -> Seq<JsonTree> {
    values.map_values(|v: Value| json_tree(v))
}

/// Calls `serde_json::Value::get` with a string: the member of an object under
/// that key, and nothing for any other document or an absent key.
#[verifier::external_body]
pub(crate) fn get<'a>(value: &'a Value, key: &str) -> (r: Option<&'a Value>)
    ensures
        match r {
            Some(v) => member(json_tree(*value), key@) == Some(json_tree(*v)),
            None => member(json_tree(*value), key@) is None,
        },
{
    value.get(key)
}

/// Calls `serde_json::Value::as_object`: the members of an object, and nothing
/// for any other document.
#[verifier::external_body]
pub(crate) fn as_object<'a>(value: &'a Value) -> (r: Option<&'a serde_json::Map<String, Value>>)
    ensures
        match r {
            Some(m) => json_tree(*value) == JsonTree::Object(json_members(*m)),
            None => !(json_tree(*value) is Object),
        },
{
    value.as_object()
}

/// Calls `serde_json::Map::get`: the member under a key.
#[verifier::external_body]
pub(crate) fn get_member<'a>(members: &'a serde_json::Map<String, Value>, key: &str) -> (r: Option<
    &'a Value,
>)
    ensures
        match r {
            Some(v) => json_members(*members).contains_key(key@) && json_members(*members)[key@]
                == json_tree(*v),
            None => !json_members(*members).contains_key(key@),
        },
{
    members.get(key)
}

/// Calls `serde_json::Value::as_u64`: the value of an unsigned integer, and
/// nothing for any other document, negative and fractional numbers included.
#[verifier::external_body]
pub(crate) fn as_u64(value: &Value) -> (r: Option<u64>)
    ensures
        match json_tree(*value) {
            JsonTree::Number(JsonNumber::Unsigned(n)) => r == Some(n),
            _ => r is None,
        },
{
    value.as_u64()
}

/// Calls `serde_json::Value::as_array`: the items of an array, and nothing for
/// any other document.
#[verifier::external_body]
pub(crate) fn as_array<'a>(value: &'a Value) -> (r: Option<&'a Vec<Value>>)
    ensures
        match r {
            Some(items) => json_tree(*value) == JsonTree::Array(json_trees(items@)),
            None => !(json_tree(*value) is Array),
        },
{
    value.as_array()
}

/// Calls `serde_json::Value::as_str`: the characters of a string, and nothing
/// for any other document.
#[verifier::external_body]
pub(crate) fn as_str<'a>(value: &'a Value) -> (r: Option<&'a str>)
    ensures
        match r {
            Some(s) => json_tree(*value) == JsonTree::Str(s@),
            None => !(json_tree(*value) is Str),
        },
{
    value.as_str()
}

/// Calls `serde_json::Value::is_null`: whether the document is `null`.
#[verifier::external_body]
pub(crate) fn is_null(value: &Value) -> (r: bool)
    ensures
        r == (json_tree(*value) is Null),
{
    value.is_null()
}

/// Calls `serde_json::Value::clone`: another document with the same contents.
#[verifier::external_body]
pub(crate) fn duplicate(value: &Value) -> (r: Value)
    ensures
        json_tree(r) == json_tree(*value),
{
    value.clone()
}

/// Makes `serde_json::Value::Null`: the document `null`.
#[verifier::external_body]
pub(crate) fn null() -> (r: Value)
    ensures
        json_tree(r) is Null,
{
    Value::Null
}

/// Makes a `serde_json::Value::String`: a string document.
#[verifier::external_body]
pub(crate) fn string(s: String) -> (r: Value)
    ensures
        json_tree(r) == JsonTree::Str(s@),
{
    Value::String(s)
}

/// Calls `serde_json::Value::from` with a `u64`: an unsigned integer document.
#[verifier::external_body]
pub(crate) fn unsigned(n: u64) -> (r: Value)
    ensures
        json_tree(r) == JsonTree::Number(JsonNumber::Unsigned(n)),
{
    Value::from(n)
}

/// Makes a `serde_json::Value::Array`: an array document with the given items.
#[verifier::external_body]
pub(crate) fn array(items: Vec<Value>) -> (r: Value)
    ensures
        json_tree(r) == JsonTree::Array(json_trees(items@)),
{
    Value::Array(items)
}

/// Makes a `serde_json::Value::Object`: an object document with the given
/// members.
#[verifier::external_body]
pub(crate) fn object(members: serde_json::Map<String, Value>) -> (r: Value)
    ensures
        json_tree(r) == JsonTree::Object(json_members(members)),
{
    Value::Object(members)
}

/// Calls `serde_json::Map::new`: no members.
#[verifier::external_body]
pub(crate) fn no_members() -> (r: serde_json::Map<String, Value>)
    ensures
        json_members(r) == empty_members(),
{
    serde_json::Map::new()
}

/// Calls `serde_json::Map::insert`: sets the member under a key, and hands back
/// nothing of an earlier one.
#[verifier::external_body]
pub(crate) fn set_member(members: &mut serde_json::Map<String, Value>, key: &str, value: Value)
    ensures
        json_members(*final(members)) == json_members(*old(members)).insert(key@, json_tree(value)),
{
    members.insert(key.to_string(), value);
}

/// Calls `serde_json::to_vec`: the document's bytes.
#[verifier::external_body]
pub(crate) fn write(value: &Value) -> (r: Result<Vec<u8>, serde_json::Error>)
    ensures
        match r {
            Ok(bytes) => json_bytes(json_tree(*value)) == Some(bytes@),
            Err(_) => json_bytes(json_tree(*value)) is None,
        },
{
    serde_json::to_vec(value)
}

}
