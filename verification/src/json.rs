//! Members of JSON objects, as `serde_json` holds them.
use crate::text;
use vstd::prelude::*;

verus! {

/// `serde_json::Value`, carried through as it is.
#[verifier::external_type_specification]
#[verifier::external_body]
pub struct ExValue(serde_json::Value);

/// What a member of a JSON object holds, as far as it is read here.
pub enum JsonMember {
    /// A string.
    Text(Seq<char>),
    /// A whole number in the range of `i64`.
    Whole(i64),
    /// Anything else.
    Other,
}

/// The members of a JSON object by their names; none where the value is no object.
pub uninterp spec fn json_members(value: serde_json::Value) -> Map<Seq<char>, JsonMember>;

/// The string that the member `key` holds.
pub open spec fn member_text(members: Map<Seq<char>, JsonMember>, key: Seq<char>) -> Option<
    Seq<char>,
> {
    if members.dom().contains(key) {
        match members[key] {
            JsonMember::Text(s) => Some(s),
            _ => None,
        }
    } else {
        None
    }
}

/// The whole number that the member `key` holds.
pub open spec fn member_whole(members: Map<Seq<char>, JsonMember>, key: Seq<char>) -> Option<i64> {
    if members.dom().contains(key) {
        match members[key] {
            JsonMember::Whole(n) => Some(n),
            _ => None,
        }
    } else {
        None
    }
}

/// `Value::as_object`, `Map::get` and `Value::as_str`: the string under `key`, where the
/// value is an object with a member of that name and the member is a string.
#[verifier::external_body]
pub(crate) fn json_text(value: &serde_json::Value, key: &str) -> (r: Option<String>)
    ensures
        text::opt_string(r) == member_text(json_members(*value), key@),
{
    value.as_object()?.get(key)?.as_str().map(str::to_string)
}

/// `Value::as_object`, `Map::get` and `Value::as_i64`: the number under `key`, where the
/// value is an object with a member of that name and the member is a whole number that
/// `i64` holds.
#[verifier::external_body]
pub(crate) fn json_whole(value: &serde_json::Value, key: &str) -> (r: Option<i64>)
    ensures
        r == member_whole(json_members(*value), key@),
{
    value.as_object()?.get(key)?.as_i64()
}

}
