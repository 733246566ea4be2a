//! JSON values of `serde_json`, read through a tree that contracts can name.

use vstd::prelude::*;

verus! {

/// `serde_json::Value`, carried as an opaque value.
#[verifier::external_type_specification]
#[verifier::external_body]
pub struct ExValue(serde_json::Value);

/// The shape of a JSON value: the strings it holds and its items, object
/// entries in the order in which `serde_json` yields them. A number carries
/// its value when it is an integer and none when it is a floating-point
/// number.
pub enum JsonTree {
    /// `null`
    Null,
    /// `true` or `false`
    Bool(bool),
    /// a number: its value when it is an integer
    Number(Option<int>),
    /// a string
    Str(Seq<char>),
    /// an array
    Array(Seq<JsonTree>),
    /// an object: its keys and values
    Object(Seq<(Seq<char>, JsonTree)>),
}

/// The tree of a `serde_json::Value`.
pub uninterp spec fn json_tree(v: serde_json::Value) -> JsonTree;

/// What `serde_json::from_str::<Value>` gives for `text`: the tree of the
/// value, or the text of the error.
pub uninterp spec fn parsed_json(text: Seq<char>) -> Result<JsonTree, Seq<char>>;

/// What `serde_json::from_slice::<Value>` gives for `bytes`: the tree of
/// the value, or the text of the error.
pub uninterp spec fn parsed_json_bytes(bytes: Seq<u8>) -> Result<JsonTree, Seq<char>>;

/// The value of the first entry with key `key`.
pub open spec fn entries_get(es: Seq<(Seq<char>, JsonTree)>, key: Seq<char>) -> Option<JsonTree>
    decreases es.len(),
{
    if es.len() == 0 {
        None
    } else if es[0].0 == key {
        Some(es[0].1)
    } else {
        entries_get(es.drop_first(), key)
    }
}

/// `Value::get(key)`: the value of an object's entry; none for other values.
pub open spec fn tree_get(t: JsonTree, key: Seq<char>) -> Option<JsonTree> {
    match t {
        JsonTree::Object(es) => entries_get(es, key),
        _ => None,
    }
}

/// `Value::get(i)`: an array's item; none for other values.
pub open spec fn tree_index(t: JsonTree, i: int) -> Option<JsonTree> {
    match t {
        JsonTree::Array(items) => if 0 <= i < items.len() {
            Some(items[i])
        } else {
            None
        },
        _ => None,
    }
}

/// `Value::as_str`: the text of a string; none for other values.
pub open spec fn tree_str(t: JsonTree) -> Option<Seq<char>> {
    match t {
        JsonTree::Str(s) => Some(s),
        _ => None,
    }
}

/// Calls `serde_json::from_str::<Value>`; the contract names its result by
/// `parsed_json` (the JSON grammar is not stated), the error by its text.
#[verifier::external_body]
pub(crate) fn parse_json(text: &str) -> (res: Result<serde_json::Value, String>)
    ensures
        match res {
            Ok(v) => parsed_json(text@) == Ok::<JsonTree, Seq<char>>(json_tree(v)),
            Err(e) => parsed_json(text@) == Err::<JsonTree, Seq<char>>(e@),
        },
{
    match serde_json::from_str::<serde_json::Value>(text) {
        Ok(v) => Ok(v),
        Err(e) => Err(e.to_string()),
    }
}

/// Calls `serde_json::from_slice::<Value>`; the contract names its result
/// by `parsed_json_bytes` (the JSON grammar is not stated), the error by its
/// text.
#[verifier::external_body]
pub(crate) fn parse_json_slice(bytes: &[u8]) -> (res: Result<serde_json::Value, String>)
    ensures
        match res {
            Ok(v) => parsed_json_bytes(bytes@) == Ok::<JsonTree, Seq<char>>(json_tree(v)),
            Err(e) => parsed_json_bytes(bytes@) == Err::<JsonTree, Seq<char>>(e@),
        },
{
    match serde_json::from_slice::<serde_json::Value>(bytes) {
        Ok(v) => Ok(v),
        Err(e) => Err(e.to_string()),
    }
}

/// Calls `Value::get` with a key: the value of the object's entry with
/// that key, none when the value is not an object or has no such key.
#[verifier::external_body]
pub(crate) fn json_get<'a>(v: &'a serde_json::Value, key: &str) -> (res: Option<&'a serde_json::Value>)
    ensures
        match res {
            Some(r) => tree_get(json_tree(*v), key@) == Some(json_tree(*r)),
            None => tree_get(json_tree(*v), key@) is None,
        },
{
    v.get(key)
}

/// Calls `Value::get` with an index: the array's item at that index, none
/// when the value is not an array or is too short.
#[verifier::external_body]
pub(crate) fn json_index<'a>(v: &'a serde_json::Value, i: usize) -> (res: Option<&'a serde_json::Value>)
    ensures
        match res {
            Some(r) => tree_index(json_tree(*v), i as int) == Some(json_tree(*r)),
            None => tree_index(json_tree(*v), i as int) is None,
        },
{
    v.get(i)
}

/// Calls `Value::as_str`: the text of a string value.
#[verifier::external_body]
pub(crate) fn json_as_str<'a>(v: &'a serde_json::Value) -> (res: Option<&'a str>)
    ensures
        match res {
            Some(s) => tree_str(json_tree(*v)) == Some(s@),
            None => tree_str(json_tree(*v)) is None,
        },
{
    v.as_str()
}

/// Calls `Value::as_object` and walks the map: the entries of an object in
/// the map's order, none for other values.
#[verifier::external_body]
pub(crate) fn json_entries<'a>(v: &'a serde_json::Value) -> (res: Option<Vec<(String, &'a serde_json::Value)>>)
    ensures
        match json_tree(*v) {
            JsonTree::Object(es) => res is Some && res->0@.len() == es.len() && forall|i: int|
                0 <= i < es.len() ==> (#[trigger] res->0@[i]).0@ == es[i].0 && json_tree(
                    *res->0@[i].1,
                ) == es[i].1,
            _ => res is None,
        },
{
    match v.as_object() {
        Some(m) => Some(m.iter().map(|(k, x)| (k.clone(), x)).collect()),
        None => None,
    }
}

/// The trees of a sequence of values.
pub open spec fn trees(vs: Seq<serde_json::Value>) -> Seq<JsonTree> {
    vs.map_values(|v: serde_json::Value| json_tree(v))
}

/// Builds `Value::String`: a string value holding `s`.
#[verifier::external_body]
pub(crate) fn json_string(s: &str) -> (res: serde_json::Value)
    ensures
        json_tree(res) == JsonTree::Str(s@),
{
    serde_json::Value::String(s.to_string())
}

/// Builds `Value::from(n)`: the integer `n` as a number value.
#[verifier::external_body]
pub(crate) fn json_number(n: u64) -> (res: serde_json::Value)
    ensures
        json_tree(res) == JsonTree::Number(Some(n as int)),
{
    serde_json::Value::from(n)
}

/// Builds `Value::Array`: an array of the items, in order.
#[verifier::external_body]
pub(crate) fn json_array(items: Vec<serde_json::Value>) -> (res: serde_json::Value)
    ensures
        json_tree(res) == JsonTree::Array(trees(items@)),
{
    serde_json::Value::Array(items)
}

/// No key occurs twice among an object's entries.
pub open spec fn keys_distinct(t: JsonTree) -> bool {
    match t {
        JsonTree::Object(es) => forall|i: int, j: int|
            0 <= i < j < es.len() ==> #[trigger] es[i].0 != #[trigger] es[j].0,
        _ => true,
    }
}

/// The value of the last entry with key `key`.
pub open spec fn last_value(es: Seq<(String, serde_json::Value)>, key: Seq<char>) -> Option<JsonTree>
    decreases es.len(),
{
    if es.len() == 0 {
        None
    } else if es.last().0@ == key {
        Some(json_tree(es.last().1))
    } else {
        last_value(es.drop_last(), key)
    }
}

/// Builds `Value::Object` from entries inserted into a `serde_json::Map`
/// in order: each key occurs once and reads back the value inserted last
/// under it (the order in which the map yields its entries is not stated).
#[verifier::external_body]
pub(crate) fn json_object(entries: Vec<(String, serde_json::Value)>) -> (res: serde_json::Value)
    ensures
        json_tree(res) is Object,
        keys_distinct(json_tree(res)),
        forall|k: Seq<char>| #[trigger] tree_get(json_tree(res), k) == last_value(entries@, k),
{
    serde_json::Value::Object(entries.into_iter().collect())
}

} // verus!
