//! JSON documents, as `serde_json` reads and writes them.
//!
//! A document is held as a `serde_json::Value`. Contracts speak of it through
//! [`tree_of`], which names the tree that a value holds. Nothing in this file
//! is proved: every function is a call into `serde_json` whose contract
//! states what that crate's source shows.

use vstd::prelude::*;
use serde_json::Value;

verus! {

/// A JSON document as a mathematical tree. An object keeps its members in
/// the order in which they are written.
pub enum JsonTree {
    Null,
    Bool(bool),
    /// A number that is a non-negative integer below 2^64.
    Unsigned(u64),
    /// A negative integer.
    Negative(i64),
    /// Any other number, by the text that stands for it.
    Real(Seq<char>),
    Text(Seq<char>),
    Array(Seq<JsonTree>),
    Object(Seq<(Seq<char>, JsonTree)>),
}

#[verifier::external_type_specification]
#[verifier::external_body]
pub struct ExValue(serde_json::Value);

#[verifier::external_type_specification]
#[verifier::external_body]
pub struct ExError(serde_json::Error);

/// The tree that a `serde_json::Value` holds.
pub uninterp spec fn tree_of(value: Value) -> JsonTree;

/// What `serde_json::from_str` makes of a text: the tree of the value it
/// returns, or `None` where it returns an error.
pub uninterp spec fn parsed(text: Seq<char>) -> Option<JsonTree>;

/// The text that `serde_json` writes for a value that holds the given tree.
pub uninterp spec fn rendered(tree: JsonTree) -> Seq<char>;

/// The trees of a sequence of values, one for one.
pub open spec fn trees_of(items: Seq<Value>) -> Seq<JsonTree> {
    items.map_values(|item: Value| tree_of(item))
}

/// The members of an object under construction, as the tree holds them.
pub open spec fn members_of(entries: Seq<(String, Value)>) -> Seq<(Seq<char>, JsonTree)> {
    entries.map_values(|entry: (String, Value)| (entry.0@, tree_of(entry.1)))
}

/// The members that were borrowed from an object, as the tree holds them.
pub open spec fn borrowed_members_of(entries: Seq<(&String, &Value)>) -> Seq<(Seq<char>, JsonTree)> {
    entries.map_values(|entry: (&String, &Value)| (entry.0@, tree_of(*entry.1)))
}

/// No two members have the same key.
pub open spec fn distinct_keys(members: Seq<(Seq<char>, JsonTree)>) -> bool {
    forall|i: int, j: int|
        0 <= i < j < members.len() ==> (#[trigger] members[i]).0 != (#[trigger] members[j]).0
}

/// Calls `serde_json::from_str` for a `Value`. The result is an error exactly
/// where [`parsed`] is `None`, and otherwise a value that holds the parsed tree.
#[verifier::external_body]
pub(crate) fn parse(text: &str) -> (result: Result<Value, serde_json::Error>)
    ensures
        match result {
            Ok(value) => parsed(text@) == Some(tree_of(value)),
            Err(_) => parsed(text@) is None,
        },
{
    serde_json::from_str::<Value>(text)
}

/// Calls `Value::as_str`: the text of a value that is a string, `None` for
/// any other value.
#[verifier::external_body]
pub(crate) fn text_of(value: &Value) -> (result: Option<&str>)
    ensures
        match result {
            Some(text) => tree_of(*value) == JsonTree::Text(text@),
            None => !(tree_of(*value) is Text),
        },
{
    value.as_str()
}

/// Calls `Value::as_u64`: the number of a value that is a non-negative
/// integer below 2^64, `None` for any other value.
#[verifier::external_body]
pub(crate) fn unsigned_of(value: &Value) -> (result: Option<u64>)
    ensures
        match result {
            Some(number) => tree_of(*value) == JsonTree::Unsigned(number),
            None => !(tree_of(*value) is Unsigned),
        },
{
    value.as_u64()
}

/// Calls `Value::as_array`: the items of a value that is an array, `None`
/// for any other value.
#[verifier::external_body]
pub(crate) fn items_of(value: &Value) -> (result: Option<&Vec<Value>>)
    ensures
        match result {
            Some(items) => tree_of(*value) == JsonTree::Array(trees_of(items@)),
            None => !(tree_of(*value) is Array),
        },
{
    value.as_array()
}

/// Calls `Value::as_object` and walks the map with `Map::iter`: the members
/// of a value that is an object, in the map's order, `None` for any other
/// value.
#[verifier::external_body]
pub(crate) fn entries_of(value: &Value) -> (result: Option<Vec<(&String, &Value)>>)
    ensures
        match result {
            Some(entries) => tree_of(*value) == JsonTree::Object(borrowed_members_of(entries@)),
            None => !(tree_of(*value) is Object),
        },
{
    value.as_object().map(|members| members.iter().collect())
}

/// Makes a `Value::String` of a text.
#[verifier::external_body]
pub(crate) fn text_value(text: String) -> (value: Value)
    ensures
        tree_of(value) == JsonTree::Text(text@),
{
    Value::String(text)
}

/// Calls `Value::from` on a `u64`, which makes a number that holds it.
#[verifier::external_body]
pub(crate) fn unsigned_value(number: u64) -> (value: Value)
    ensures
        tree_of(value) == JsonTree::Unsigned(number),
{
    Value::from(number)
}

/// Makes a `Value::Array` of the items.
#[verifier::external_body]
pub(crate) fn array_value(items: Vec<Value>) -> (value: Value)
    ensures
        tree_of(value) == JsonTree::Array(trees_of(items@)),
{
    Value::Array(items)
}

/// Collects the entries into a `serde_json::Map` and makes a `Value::Object`
/// of it. The map keeps the order of insertion; the keys must differ, since
/// a key that comes again would replace the member it came with first.
#[verifier::external_body]
pub(crate) fn object_value(entries: Vec<(String, Value)>) -> (value: Value)
    requires
        distinct_keys(members_of(entries@)),
    ensures
        tree_of(value) == JsonTree::Object(members_of(entries@)),
{
    Value::Object(entries.into_iter().collect())
}

/// Calls `to_string` on a value, which writes it as compact JSON.
#[verifier::external_body]
pub(crate) fn render(value: &Value) -> (text: String)
    ensures
        text@ == rendered(tree_of(*value)),
{
    value.to_string()
}

} // verus!
