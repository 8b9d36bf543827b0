//! JSON values of `serde_json`, and what they hold.

use crate::number;
use serde_json::{Map as JsonMap, Value};
use vstd::prelude::*;
use vstd::string::*;
use vstd::utf8::*;

verus! {

/// What a JSON value holds. A number is given by its decimal text.
pub enum JsonTree {
    Null,
    Bool(bool),
    Number(Seq<char>),
    Text(Seq<char>),
    List(Seq<JsonTree>),
    Object(Map<Seq<char>, JsonTree>),
}

/// `serde_json::Value`, seen through [`json_tree`].
#[verifier::external_type_specification]
#[verifier::external_body]
pub struct ExValue(serde_json::Value);

/// `serde_json::Map`, seen through [`json_fields`].
#[verifier::external_type_specification]
#[verifier::external_body]
#[verifier::reject_recursive_types(K)]
#[verifier::reject_recursive_types(V)]
pub struct ExMap<K, V>(serde_json::Map<K, V>);

/// What a JSON value holds.
pub uninterp spec fn json_tree(value: serde_json::Value) -> JsonTree;

/// What a JSON object holds.
pub uninterp spec fn json_fields(map: serde_json::Map<String, serde_json::Value>) -> Map<
    Seq<char>,
    JsonTree,
>;

/// The fields of an empty JSON object.
pub open spec fn no_json_fields() -> Map<Seq<char>, JsonTree> {
    Map::empty()
}

/// The compact text of a JSON value, as `serde_json` writes it.
pub uninterp spec fn json_text(tree: JsonTree) -> Seq<char>;

/// A hexadecimal digit below sixteen, in lower case.
pub open spec fn hex_digit(n: int) -> char {
    if n < 10 {
        (n + 48) as u8 as char
    } else {
        (n + 87) as u8 as char
    }
}

/// A character inside the JSON text of a string: quotes, backslashes and control characters are
/// escaped, by a letter where they have one and by their code where they have none.
pub open spec fn json_escape(c: char) -> Seq<char> {
    let code = c as int;
    if c == '"' || c == '\\' {
        seq!['\\', c]
    } else if code == 8 {
        seq!['\\', 'b']
    } else if code == 9 {
        seq!['\\', 't']
    } else if code == 10 {
        seq!['\\', 'n']
    } else if code == 12 {
        seq!['\\', 'f']
    } else if code == 13 {
        seq!['\\', 'r']
    } else if code < 32 {
        seq!['\\', 'u', '0', '0', hex_digit(code / 16), hex_digit(code % 16)]
    } else {
        seq![c]
    }
}

/// The characters of a string inside its JSON text.
pub open spec fn json_escaped(text: Seq<char>) -> Seq<char>
    decreases text.len(),
{
    if text.len() == 0 {
        Seq::empty()
    } else {
        json_escape(text[0]) + json_escaped(text.drop_first())
    }
}

/// The JSON text of a string, with its quotes.
pub open spec fn json_quoted(text: Seq<char>) -> Seq<char> {
    seq!['"'] + json_escaped(text) + seq!['"']
}

/// What a list of JSON values holds.
pub open spec fn json_trees(values: Seq<Value>) -> Seq<JsonTree> {
    values.map_values(|value: Value| json_tree(value))
}

/// `serde_json::Value::String`: a value that holds the text.
#[verifier::external_body]
pub(crate) fn string_value(text: String) -> (r: Value)
    ensures
        json_tree(r) == JsonTree::Text(text@),
{
    Value::String(text)
}

/// `serde_json::Value::Bool`: a value that holds the truth value.
#[verifier::external_body]
pub(crate) fn bool_value(value: bool) -> (r: Value)
    ensures
        json_tree(r) == JsonTree::Bool(value),
{
    Value::Bool(value)
}

/// `serde_json::Value::from` on an unsigned integer: a value that holds the number.
#[verifier::external_body]
pub(crate) fn unsigned_value(n: u64) -> (r: Value)
    ensures
        json_tree(r) == JsonTree::Number(number::decimal(n as nat)),
{
    Value::from(n)
}

/// `serde_json::Value::Array`: a value that holds the values in their order.
#[verifier::external_body]
pub(crate) fn array_value(values: Vec<Value>) -> (r: Value)
    ensures
        json_tree(r) == JsonTree::List(json_trees(values@)),
{
    Value::Array(values)
}

/// `serde_json::Value::Object`: a value that holds the fields of the map.
#[verifier::external_body]
pub(crate) fn object_value(map: JsonMap<String, Value>) -> (r: Value)
    ensures
        json_tree(r) == JsonTree::Object(json_fields(map)),
{
    Value::Object(map)
}

/// `serde_json::Value::clone`: a value that holds the same.
#[verifier::external_body]
pub(crate) fn clone_value(value: &Value) -> (r: Value)
    ensures
        json_tree(r) == json_tree(*value),
{
    value.clone()
}

/// `serde_json::Value::as_object_mut`: the map of a value that is an object. What is done to
/// the map is done to the value.
#[verifier::external_body]
pub(crate) fn object_mut(value: &mut Value) -> (r: Option<&mut JsonMap<String, Value>>)
    ensures
        match r {
            Some(map) => {
                &&& json_tree(*old(value)) == JsonTree::Object(json_fields(*map))
                &&& json_tree(*final(value)) == JsonTree::Object(json_fields(*final(map)))
            },
            None => !(json_tree(*old(value)) is Object) && *final(value) == *old(value),
        },
{
    value.as_object_mut()
}

/// `serde_json::Map::new`: a map without fields.
#[verifier::external_body]
pub(crate) fn new_map() -> (r: JsonMap<String, Value>)
    ensures
        json_fields(r) == no_json_fields(),
{
    JsonMap::new()
}

/// `serde_json::Map::insert`: sets a field, whether or not the map had it.
#[verifier::external_body]
pub(crate) fn map_insert(map: &mut JsonMap<String, Value>, key: String, value: Value)
    ensures
        json_fields(*final(map)) == json_fields(*old(map)).insert(key@, json_tree(value)),
{
    map.insert(key, value);
}

/// `serde_json::Map::get_mut`: the value of a field. What is done to the value is done to the
/// field.
#[verifier::external_body]
pub(crate) fn map_get_mut<'a>(map: &'a mut JsonMap<String, Value>, key: &str) -> (r: Option<
    &'a mut Value,
>)
    ensures
        match r {
            Some(value) => {
                &&& json_fields(*old(map)).contains_key(key@)
                &&& json_fields(*old(map))[key@] == json_tree(*value)
                &&& json_fields(*final(map)) == json_fields(*old(map)).insert(
                    key@,
                    json_tree(*final(value)),
                )
            },
            None => !json_fields(*old(map)).contains_key(key@) && *final(map) == *old(map),
        },
{
    map.get_mut(key)
}

/// `serde_json::Value::to_string`: the compact text of the value.
#[verifier::external_body]
pub(crate) fn value_to_string(value: &Value) -> (r: String)
    ensures
        r@ == json_text(json_tree(*value)),
{
    value.to_string()
}

/// `serde_json::to_vec` on a value, which never fails: the bytes of the same compact text, since
/// both are written by one serializer.
#[verifier::external_body]
pub(crate) fn value_to_vec(value: &Value) -> (r: Vec<u8>)
    ensures
        r@ == encode_utf8(json_text(json_tree(*value))),
{
    serde_json::to_vec(value).unwrap_or_default()
}

/// `serde_json::to_string` on a string, which never fails: its JSON text, in which quotes,
/// backslashes and the control characters below the space are escaped, and nothing else.
#[verifier::external_body]
pub(crate) fn quote_text(text: &str) -> (r: String)
    ensures
        r@ == json_quoted(text@),
{
    serde_json::to_string(text).expect("a string serializes")
}

} // verus!
