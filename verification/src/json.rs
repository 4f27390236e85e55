//! The JSON values of the Rosetta models: opaque but for the texts that their members hold.

use vstd::prelude::*;

verus! {

/// A JSON value of `serde_json`.
#[verifier::external_type_specification]
#[verifier::external_body]
pub struct ExJsonValue(serde_json::Value);

/// What a JSON object holds, of each member the text or, if the member is no string, `None`.
/// A value that is no object holds nothing.
pub uninterp spec fn json_members(value: serde_json::Value) -> Map<Seq<char>, Option<Seq<char>>>;

/// The text of a JSON string; `None` for every other value.
pub uninterp spec fn json_text(value: serde_json::Value) -> Option<Seq<char>>;

/// Calls `serde_json::Value::get` with a text as the index. Claims that it finds the member of
/// that name exactly if `value` is an object that has one, and that it hands out that member.
#[verifier::external_body]
pub(crate) fn json_get<'a>(value: &'a serde_json::Value, name: &str) -> (member: Option<
    &'a serde_json::Value,
>)
    ensures
        member is Some <==> json_members(*value).contains_key(name@),
        member matches Some(m) ==> json_members(*value)[name@] == json_text(*m),
{
    value.get(name)
}

/// Calls `serde_json::Value::as_str`. Claims that it gives the text of a JSON string, and nothing
/// for any other value.
#[verifier::external_body]
pub(crate) fn json_as_str(value: &serde_json::Value) -> (text: Option<&str>)
    ensures
        text is Some <==> json_text(*value) is Some,
        text matches Some(t) ==> json_text(*value) == Some(t@),
{
    value.as_str()
}

/// What an object holds that has one member, a string.
pub open spec fn single_member(name: Seq<char>, text: Seq<char>) -> Map<
    Seq<char>,
    Option<Seq<char>>,
> {
    Map::empty().insert(name, Some(text))
}

/// Calls `serde_json::Map::insert` on an empty map. Claims that the object made of that map has
/// the member `name`, a string that holds `text`, and no other.
#[verifier::external_body]
pub(crate) fn json_object(name: String, text: String) -> (object: serde_json::Value)
    ensures
        json_members(object) == single_member(name@, text@),
{
    let mut members = serde_json::Map::new();
    members.insert(name, serde_json::Value::String(text));
    serde_json::Value::Object(members)
}

/// An object with a single member has that member, with that text, and no other.
pub proof fn single_members_stand_alone(name: Seq<char>, text: Seq<char>, other: Seq<char>)
    ensures
        single_member(name, text).contains_key(other) <==> other == name,
        single_member(name, text)[name] == Some(text),
{
}

} // verus!
