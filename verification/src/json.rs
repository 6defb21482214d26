//! JSON values, as `serde_json` has them.
use vstd::prelude::*;

verus! {

/// What a JSON value is: the model of `serde_json::Value` that the contracts speak of.
pub enum Json {
    Null,
    Bool(bool),
    /// A number without a fraction or an exponent.
    Integer(int),
    /// Any other number, by its text.
    Real(Seq<char>),
    Text(Seq<char>),
    Array(Seq<Json>),
    Object(Map<Seq<char>, Json>),
}

/// Declares `serde_json::Value`, a JSON value, as opaque.
#[verifier::external_type_specification]
#[verifier::external_body]
pub struct ExValue(serde_json::Value);

/// Declares `serde_json::Map`, the members of a JSON object, as opaque.
#[verifier::external_type_specification]
#[verifier::external_body]
#[verifier::reject_recursive_types(K)]
#[verifier::reject_recursive_types(V)]
pub struct ExMap<K, V>(serde_json::Map<K, V>);

/// The JSON value that a `serde_json::Value` holds.
pub uninterp spec fn json_of(value: serde_json::Value) -> Json;

/// The members that a `serde_json::Map` holds, by name.
pub uninterp spec fn members_of(members: serde_json::Map<String, serde_json::Value>) -> Map<Seq<char>, Json>;

/// The members of the object that has none.
pub open spec fn no_json_members() -> Map<Seq<char>, Json> {
    Map::empty()
}

/// The text that `serde_json::Value`'s `Display` gives a JSON value: compact, with the members
/// of an object in the order of their names.
pub uninterp spec fn json_text(json: Json) -> Seq<char>;

/// Makes `serde_json::Value::Null`, which holds JSON's null.
#[verifier::external_body]
pub(crate) fn json_null() -> (value: serde_json::Value)
    ensures
        json_of(value) == Json::Null,
{
    serde_json::Value::Null
}

/// Calls `serde_json::Value::from` on a `bool`: the value holds that truth value.
#[verifier::external_body]
pub(crate) fn json_bool(truth: bool) -> (value: serde_json::Value)
    ensures
        json_of(value) == Json::Bool(truth),
{
    serde_json::Value::from(truth)
}

/// Calls `serde_json::Value::from` on an `i64`: the value holds that number.
#[verifier::external_body]
pub(crate) fn json_i64(number: i64) -> (value: serde_json::Value)
    ensures
        json_of(value) == Json::Integer(number as int),
{
    serde_json::Value::from(number)
}

/// Calls `serde_json::Value::from` on a `usize`: the value holds that number.
#[verifier::external_body]
pub(crate) fn json_usize(number: usize) -> (value: serde_json::Value)
    ensures
        json_of(value) == Json::Integer(number as int),
{
    serde_json::Value::from(number)
}

/// Calls `serde_json::Value::from` on a `String`: the value holds that text.
#[verifier::external_body]
pub(crate) fn json_string(text: String) -> (value: serde_json::Value)
    ensures
        json_of(value) == Json::Text(text@),
{
    serde_json::Value::from(text)
}

/// Calls `serde_json::Value::from` on a `serde_json::Map`: the value holds the object with
/// the map's members.
#[verifier::external_body]
pub(crate) fn json_object(members: serde_json::Map<String, serde_json::Value>) -> (value: serde_json::Value)
    ensures
        json_of(value) == Json::Object(members_of(members)),
{
    serde_json::Value::from(members)
}

/// Calls `serde_json::Map::new`: the map has no member.
#[verifier::external_body]
pub(crate) fn no_members() -> (members: serde_json::Map<String, serde_json::Value>)
    ensures
        members_of(members) == no_json_members(),
{
    serde_json::Map::new()
}

/// Calls `serde_json::Map::insert`: the member `name` now has `value` and the others are as
/// they were; the result is what `name` had before, if it was there.
#[verifier::external_body]
pub(crate) fn insert_member(
    members: &mut serde_json::Map<String, serde_json::Value>,
    name: String,
    value: serde_json::Value,
) -> (replaced: Option<serde_json::Value>)
    ensures
        members_of(*final(members)) == members_of(*old(members)).insert(name@, json_of(value)),
        replaced is Some <==> members_of(*old(members)).contains_key(name@),
        replaced is Some ==> json_of(replaced->0) == members_of(*old(members))[name@],
{
    members.insert(name, value)
}

/// Calls `to_string` of `serde_json::Value`'s `Display`: the compact text of what the value
/// holds, which rests on that alone, since an object's members come in the order of their
/// names. Which characters the text has is not said.
#[verifier::external_body]
pub(crate) fn text_of_json(value: &serde_json::Value) -> (text: String)
    ensures
        text@ == json_text(json_of(*value)),
{
    value.to_string()
}

}
