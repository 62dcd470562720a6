//! The JSON values that thread items carry, from `serde_json`.
use vstd::prelude::*;

verus! {

/// Declares `serde_json::Value` so that thread items can hold JSON values;
/// the library never looks inside one.
#[verifier::external_type_specification]
#[verifier::external_body]
pub struct ExJsonValue(serde_json::Value);

/// The JSON string whose text is `text`.
pub uninterp spec fn json_string_value(text: Seq<char>) -> serde_json::Value;

/// The JSON object `{k1: v1, k2: v2}` whose two values are strings.
pub uninterp spec fn json_object_of_two_strings(
    k1: Seq<char>,
    v1: Seq<char>,
    k2: Seq<char>,
    v2: Seq<char>,
) -> serde_json::Value;

/// Calls `serde_json::Value::String` on `text`. The contract claims only
/// that the result is the value that `json_string_value` names for `text`,
/// the same for the same text.
#[verifier::external_body]
pub(crate) fn json_string(text: String) -> (v: serde_json::Value)
    ensures
        v == json_string_value(text@),
{
    serde_json::Value::String(text)
}

/// Builds the JSON object `{k1: v1, k2: v2}` by calling
/// `serde_json::Map::new`, `serde_json::Map::insert` (with
/// `serde_json::Value::String` values) and `serde_json::Value::Object`. The
/// contract claims only that the result is the value that
/// `json_object_of_two_strings` names for these four strings.
#[verifier::external_body]
pub(crate) fn json_object_with_two_strings(k1: String, v1: String, k2: String, v2: String) -> (v:
    serde_json::Value)
    ensures
        v == json_object_of_two_strings(k1@, v1@, k2@, v2@),
{
    let mut map = serde_json::Map::new();
    map.insert(k1, serde_json::Value::String(v1));
    map.insert(k2, serde_json::Value::String(v2));
    serde_json::Value::Object(map)
}

} // verus!
