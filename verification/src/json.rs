//! JSON values: a mathematical model of what a `serde_json::Value` holds, and
//! the calls into `serde_json` that build and serialize such values.

use serde_json::Value;
use vstd::prelude::*;

verus! {

/// What a JSON value is, as a mathematical value.
///
/// An object is a map: the order in which its members were added does not
/// matter, and `serde_json` writes them sorted by name. A number that is not
/// an integer is stood for by the digits that are written for it.
pub enum Json {
    Null,
    Bool(bool),
    Integer(int),
    Decimal(Seq<char>),
    Text(Seq<char>),
    List(Seq<Json>),
    Object(Map<Seq<char>, Json>),
}

/// `serde_json::Value`, the tree that a payload is built in.
#[verifier::external_type_specification]
#[verifier::external_body]
pub struct ExValue(serde_json::Value);

/// `serde_json::Map`, the members of a JSON object.
#[verifier::external_type_specification]
#[verifier::external_body]
#[verifier::reject_recursive_types(K)]
#[verifier::reject_recursive_types(V)]
pub struct ExMembers<K, V>(serde_json::Map<K, V>);

/// `serde_json::Error`, the reason why a value could not be serialized.
#[verifier::external_type_specification]
#[verifier::external_body]
pub struct ExJsonError(serde_json::Error);

/// What a `serde_json::Value` holds.
pub uninterp spec fn json_of(value: serde_json::Value) -> Json;

/// What a `serde_json::Map` holds: the value of each member, by its name.
pub uninterp spec fn members_of(members: serde_json::Map<String, serde_json::Value>) -> Map<
    Seq<char>,
    Json,
>;

/// The bytes that `serde_json::to_vec` writes for a JSON value, or `None` if
/// it reports an error.
pub uninterp spec fn json_text(json: Json) -> Option<Seq<u8>>;

/// The members of an object that has none.
pub open spec fn no_members() -> Map<Seq<char>, Json> {
    Map::empty()
}

/// The models of the values of a sequence, in order.
pub open spec fn json_seq(values: Seq<Value>) -> Seq<Json> {
    Seq::new(values.len(), |i: int| json_of(values[i]))
}

/// Makes `Value::Null`, which holds JSON's `null`.
#[verifier::external_body]
pub(crate) fn json_null() -> (value: Value)
    ensures
        json_of(value) == Json::Null,
{
    Value::Null
}

/// Calls `Value::from` on an unsigned integer, which makes a JSON number that
/// holds this integer.
#[verifier::external_body]
pub(crate) fn json_integer(n: u64) -> (value: Value)
    ensures
        json_of(value) == Json::Integer(n as int),
{
    Value::from(n)
}

/// Makes a `Value::String`, which holds the text it is made from.
#[verifier::external_body]
pub(crate) fn json_string(text: String) -> (value: Value)
    ensures
        json_of(value) == Json::Text(text@),
{
    Value::String(text)
}

/// Makes a `Value::Array`, which holds the values it is made from, in order.
#[verifier::external_body]
pub(crate) fn json_array(values: Vec<Value>) -> (value: Value)
    ensures
        json_of(value) == Json::List(json_seq(values@)),
{
    Value::Array(values)
}

/// Calls `serde_json::Map::new`, which makes an object without members.
#[verifier::external_body]
pub(crate) fn members_new() -> (members: serde_json::Map<String, Value>)
    ensures
        members_of(members) == no_members(),
{
    serde_json::Map::new()
}

/// Calls `serde_json::Map::insert`, which adds a member, or replaces the value
/// of the member that has this name already.
#[verifier::external_body]
pub(crate) fn members_insert(
    members: &mut serde_json::Map<String, Value>,
    name: &str,
    value: Value,
)
    ensures
        members_of(*final(members)) == members_of(*old(members)).insert(name@, json_of(value)),
{
    members.insert(name.to_string(), value);
}

/// Makes a `Value::Object`, which holds the members it is made from.
#[verifier::external_body]
pub(crate) fn json_object(members: serde_json::Map<String, Value>) -> (value: Value)
    ensures
        json_of(value) == Json::Object(members_of(members)),
{
    Value::Object(members)
}

/// `Value::clone`, whose result holds the same JSON.
pub assume_specification[ <serde_json::Value as Clone>::clone ](
    value: &serde_json::Value,
) -> (copy: serde_json::Value)
    ensures
        json_of(copy) == json_of(*value),
;

/// Calls `serde_json::to_vec`, which writes a value as JSON text. What it
/// writes, or that it fails, depends on nothing but what the value holds; the
/// text has a name here, and is not described.
#[verifier::external_body]
pub(crate) fn json_to_vec(value: &Value) -> (text: Result<Vec<u8>, serde_json::Error>)
    ensures
        match text {
            Ok(bytes) => json_text(json_of(*value)) == Some(bytes@),
            Err(_) => json_text(json_of(*value)) is None,
        },
{
    serde_json::to_vec(value)
}

} // verus!
