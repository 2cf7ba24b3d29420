//! The JSON documents that `serde_json` reads, seen as mathematical values.

use serde_json::Value;
use vstd::prelude::*;

verus! {

/// A parsed JSON document of `serde_json`.
#[verifier::external_type_specification]
#[verifier::external_body]
pub struct ExValue(Value);

/// The error that `serde_json` reports for text that is no JSON document.
#[verifier::external_type_specification]
#[verifier::external_body]
pub struct ExJsonError(serde_json::Error);

/// What a JSON document holds. `Float` stands for every number that `serde_json` keeps as
/// a float, such as those with a fraction or an exponent, and integers that fit neither
/// `u64` nor `i64`.
pub enum JsonNode {
    Null,
    Bool(bool),
    Integer(int),
    Float,
    Text(Seq<char>),
    Array(Seq<JsonNode>),
    Object(Map<Seq<char>, JsonNode>),
}

/// What the document holds.
pub uninterp spec fn json_node(value: Value) -> JsonNode;

/// What `serde_json::from_str` reads out of a text, `None` where it reports an error.
pub uninterp spec fn parsed_json(text: Seq<char>) -> Option<JsonNode>;

/// The member of an object, null where there is none and where this is no object.
pub open spec fn member(node: JsonNode, key: Seq<char>) -> JsonNode {
    match node {
        JsonNode::Object(members) if members.dom().contains(key) => members[key],
        _ => JsonNode::Null,
    }
}

/// The text of a string, `None` for anything else.
pub open spec fn node_text(node: JsonNode) -> Option<Seq<char>> {
    match node {
        JsonNode::Text(text) => Some(text),
        _ => None,
    }
}

/// The value of an integer from zero up to the largest `u64`.
pub open spec fn node_u64(node: JsonNode) -> Option<u64> {
    match node {
        JsonNode::Integer(n) if 0 <= n <= u64::MAX => Some(n as u64),
        _ => None,
    }
}

/// The value of an integer in the range of `i64`.
pub open spec fn node_i64(node: JsonNode) -> Option<i64> {
    match node {
        JsonNode::Integer(n) if i64::MIN <= n <= i64::MAX => Some(n as i64),
        _ => None,
    }
}

/// Calls `serde_json::from_str` for a `serde_json::Value`. Its result depends on the
/// text alone.
#[verifier::external_body]
pub(crate) fn parse_json(text: &str) -> (r: Result<Value, serde_json::Error>)
    ensures
        match r {
            Ok(value) => parsed_json(text@) == Some(json_node(value)),
            Err(_) => parsed_json(text@) is None,
        },
{
    serde_json::from_str(text)
}

/// Indexes a `serde_json::Value` by a key, which gives null where the key is missing
/// and where the value is no object.
#[verifier::external_body]
pub(crate) fn json_member<'a>(value: &'a Value, key: &str) -> (r: &'a Value)
    ensures
        json_node(*r) == member(json_node(*value), key@),
{
    &value[key]
}

/// Calls `serde_json::Value::as_str`, which gives the text of a string.
#[verifier::external_body]
pub(crate) fn json_text(value: &Value) -> (r: Option<String>)
    ensures
        match r {
            Some(text) => node_text(json_node(*value)) == Some(text@),
            None => node_text(json_node(*value)) is None,
        },
{
    value.as_str().map(|text| text.to_owned())
}

/// Calls `serde_json::Value::as_u64`, which gives an integer that fits `u64`.
#[verifier::external_body]
pub(crate) fn json_u64(value: &Value) -> (r: Option<u64>)
    ensures
        r == node_u64(json_node(*value)),
{
    value.as_u64()
}

/// Calls `serde_json::Value::as_i64`, which gives an integer that fits `i64`.
#[verifier::external_body]
pub(crate) fn json_i64(value: &Value) -> (r: Option<i64>)
    ensures
        r == node_i64(json_node(*value)),
{
    value.as_i64()
}

} // verus!
