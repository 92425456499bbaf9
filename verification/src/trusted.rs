use vstd::prelude::*;

use crate::config::{json_parts_of, JsonParts};

verus! {

/// Relies on std's `FromIterator` implementation for `String`: collecting
/// characters yields the string of exactly those characters, in order.
#[verifier::external_body]
pub(crate) fn chars_to_string(v: &Vec<char>) -> (r: String)
    ensures
        r@ == v@,
{
    v.iter().collect()
}

/// Relies on serde_json's `from_str::<Value>`, `Value::get` with a string
/// key, `Value::as_str` and `Value::as_u64`: reads the one JSON document
/// and lifts the configuration members out as plain values — present or
/// absent, of the right JSON type or not — exactly as the document has
/// them. All four calls are functions of the text alone, so the result
/// carries the name `json_parts_of`.
#[verifier::external_body]
pub(crate) fn json_extract(s: &str) -> (r: Option<JsonParts>)
    ensures
        r == json_parts_of(s@),
{
    let v: serde_json::Value = serde_json::from_str(s).ok()?;
    let so = v.get("settings");
    let gs = |k: &str| so.and_then(|o| o.get(k));
    let st = |x: &serde_json::Value| x.as_str().map(str::to_string);
    let nm = |x: &serde_json::Value| x.as_u64();
    Some(JsonParts {
        pattern: v.get("pattern").map(st),
        delay: gs("delay").map(nm),
        view: gs("view").map(st),
        char_alive: gs("char_alive").map(st),
        char_dead: gs("char_dead").map(st),
        width: gs("width").map(nm),
        height: gs("height").map(nm),
    })
}

} // verus!
