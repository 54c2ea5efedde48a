//! The JSON texts that the protocol's payloads hold, through `serde_json`.
use vstd::prelude::*;

verus! {

/// The compact JSON text of an object whose members are the given string
/// pairs, as `serde_json` writes it.
pub uninterp spec fn json_object_text(fields: Seq<(Seq<char>, Seq<char>)>) -> Seq<char>;

/// The integer member `key` of the JSON object that `text` holds, where `text`
/// parses as JSON, that member exists and is an integer that fits an `i64`.
pub uninterp spec fn json_int_member(text: Seq<char>, key: Seq<char>) -> Option<i64>;

/// The pairs of `fields`, as character sequences.
pub open spec fn fields_view(fields: Seq<(String, String)>) -> Seq<(Seq<char>, Seq<char>)> {
    fields.map_values(|p: (String, String)| (p.0@, p.1@))
}

/// Relies on `serde_json::Map` collecting the pairs into an object of string
/// values, and on `Value::to_string` writing it as compact JSON.
#[verifier::external_body]
pub(crate) fn object_text(fields: &Vec<(String, String)>) -> (r: String)
    ensures
        r@ == json_object_text(fields_view(fields@)),
{
    let map: serde_json::Map<String, serde_json::Value> = fields.iter().map(
        |p| (p.0.clone(), serde_json::Value::String(p.1.clone())),
    ).collect();
    serde_json::Value::Object(map).to_string()
}

/// Relies on `serde_json::from_str`, `Value::get` and `Value::as_i64`: the
/// integer member `key` of the object in `text`, or `None` where `text` is not
/// JSON, or the member is missing or no `i64`.
#[verifier::external_body]
pub(crate) fn int_member(text: &str, key: &str) -> (r: Option<i64>)
    ensures
        r == json_int_member(text@, key@),
{
    match serde_json::from_str::<serde_json::Value>(text) {
        Ok(v) => v.get(key).and_then(serde_json::Value::as_i64),
        Err(_) => None,
    }
}

} // verus!
