//! JSON documents, as `serde_json` builds, renders and reads them.

use vstd::prelude::*;
use vstd::utf8::encode_utf8;

verus! {

/// What a JSON value holds. A number that is not an integer is kept by the bits of its
/// double-precision form.
#[verifier::ext_equal]
pub enum JsonTree {
    Null,
    Bool(bool),
    Int(int),
    Float(u64),
    Text(Seq<char>),
    List(Seq<JsonTree>),
    Object(Map<Seq<char>, JsonTree>),
}

/// The value under `key`: null where there is none, or where `tree` is no object.
pub open spec fn member_of(tree: JsonTree, key: Seq<char>) -> JsonTree {
    match tree {
        JsonTree::Object(members) if members.dom().contains(key) => members[key],
        _ => JsonTree::Null,
    }
}

/// The integer that `tree` is, where it is one and fits an `i64`.
pub open spec fn int_of(tree: JsonTree) -> Option<int> {
    match tree {
        JsonTree::Int(n) if i64::MIN <= n <= i64::MAX => Some(n),
        _ => None,
    }
}

/// The string that `tree` is, where it is one.
pub open spec fn text_of(tree: JsonTree) -> Option<Seq<char>> {
    match tree {
        JsonTree::Text(text) => Some(text),
        _ => None,
    }
}

/// `tree` has lists and objects inside each other to a depth of at most `depth`, and no number
/// that is not an integer.
pub open spec fn plain_within(tree: JsonTree, depth: nat) -> bool
    decreases depth,
{
    match tree {
        JsonTree::Float(_) => false,
        JsonTree::List(items) => depth > 0 && forall|i: int|
            0 <= i < items.len() ==> plain_within(#[trigger] items[i], (depth - 1) as nat),
        JsonTree::Object(members) => depth > 0 && forall|key: Seq<char>|
            members.dom().contains(key) ==> plain_within(
                #[trigger] members[key],
                (depth - 1) as nat,
            ),
        _ => true,
    }
}

#[verifier::external_type_specification]
#[verifier::external_body]
pub struct ExJsonValue(serde_json::Value);

#[verifier::external_type_specification]
#[verifier::external_body]
pub struct ExJsonError(serde_json::Error);

/// What a `serde_json::Value` holds.
pub uninterp spec fn json_tree(value: serde_json::Value) -> JsonTree;

/// The text that `serde_json` renders for a value that holds `tree`.
pub uninterp spec fn json_text(tree: JsonTree) -> Seq<char>;

/// What `serde_json::from_slice` reads in `bytes`; nothing where they are not one JSON document.
pub uninterp spec fn json_document(bytes: Seq<u8>) -> Option<JsonTree>;

/// Calls `serde_json::Value::from` on a string slice: the value is that string.
#[verifier::external_body]
pub(crate) fn text_value(text: &str) -> (value: serde_json::Value)
    ensures
        json_tree(value) == JsonTree::Text(text@),
{
    serde_json::Value::from(text)
}

/// Calls `serde_json::Value::from` on an `i32`: the value is that number.
#[verifier::external_body]
pub(crate) fn int_value(n: i32) -> (value: serde_json::Value)
    ensures
        json_tree(value) == JsonTree::Int(n as int),
{
    serde_json::Value::from(n)
}

/// Calls `serde_json::Value::from` on a vector of values: the value is the list of them.
#[verifier::external_body]
pub(crate) fn list_value(items: Vec<serde_json::Value>) -> (value: serde_json::Value)
    ensures
        json_tree(value) == JsonTree::List(
            Seq::new(items@.len(), |i: int| json_tree(items@[i])),
        ),
{
    serde_json::Value::from(items)
}

/// Calls `serde_json::Map::new`, as a value: an object without members.
#[verifier::external_body]
pub(crate) fn empty_object() -> (value: serde_json::Value)
    ensures
        json_tree(value) == JsonTree::Object(Map::empty()),
{
    serde_json::Value::from(serde_json::Map::new())
}

/// Assigns to `serde_json::Value` by a string index, which adds or replaces that member of an
/// object.
#[verifier::external_body]
pub(crate) fn set_member(object: &mut serde_json::Value, key: &str, value: serde_json::Value)
    requires
        json_tree(*old(object)) is Object,
    ensures
        json_tree(*final(object)) == JsonTree::Object(
            json_tree(*old(object))->Object_0.insert(key@, json_tree(value)),
        ),
{
    object[key] = value;
}

/// Calls `to_string` on a `serde_json::Value`. The text depends on what the value holds alone:
/// the members of an object are rendered in the order of their keys. A value of integers and
/// strings, nested no deeper than the reader follows, reads back from its text.
#[verifier::external_body]
pub(crate) fn render(value: &serde_json::Value) -> (text: String)
    ensures
        text@ == json_text(json_tree(*value)),
        plain_within(json_tree(*value), 127) ==> json_document(encode_utf8(text@)) == Some(
            json_tree(*value),
        ),
{
    value.to_string()
}

/// Calls `serde_json::from_slice` for a `serde_json::Value`. What it reads depends on the bytes
/// alone.
#[verifier::external_body]
pub(crate) fn parse_document(bytes: &[u8]) -> (parsed: Result<serde_json::Value, serde_json::Error>)
    ensures
        match parsed {
            Ok(value) => json_document(bytes@) == Some(json_tree(value)),
            Err(_) => json_document(bytes@) is None,
        },
{
    serde_json::from_slice(bytes)
}

/// Indexes a `serde_json::Value` by a string, which gives null where there is no such member.
#[verifier::external_body]
pub(crate) fn member<'a>(value: &'a serde_json::Value, key: &str) -> (found: &'a serde_json::Value)
    ensures
        json_tree(*found) == member_of(json_tree(*value), key@),
{
    &value[key]
}

/// Calls `serde_json::Value::as_i64`.
#[verifier::external_body]
pub(crate) fn as_int(value: &serde_json::Value) -> (n: Option<i64>)
    ensures
        match int_of(json_tree(*value)) {
            Some(expected) => n is Some && n->0 == expected,
            None => n is None,
        },
{
    value.as_i64()
}

/// Calls `serde_json::Value::as_str`.
#[verifier::external_body]
pub(crate) fn as_text(value: &serde_json::Value) -> (text: Option<&str>)
    ensures
        match text_of(json_tree(*value)) {
            Some(expected) => text is Some && text->0@ == expected,
            None => text is None,
        },
{
    value.as_str()
}

} // verus!
