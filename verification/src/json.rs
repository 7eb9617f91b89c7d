//! JSON documents carried by the services (mission metadata, robot
//! configuration, map metadata). Their contents are handled by `serde_json`;
//! the library passes them through and asks `serde_json` to set a string
//! entry of an object document, stated over the document's entries.

use vstd::prelude::*;

verus! {

/// JSON values of `serde_json`, carried through the library unexamined.
#[verifier::external_type_specification]
#[verifier::external_body]
pub struct ExJsonValue(serde_json::Value);

/// What the JSON document `doc` holds when it is an object (a
/// `serde_json::Map`): each key's text with the compact JSON text
/// (as `serde_json::to_string` writes it) of the key's value. `None` when
/// `serde_json::Value::as_object_mut` finds no object in `doc`.
pub uninterp spec fn json_object_entries(doc: serde_json::Value) -> Option<
    Map<Seq<char>, Seq<char>>,
>;

/// The compact JSON text of the JSON string holding the characters `s`
/// (`serde_json::Value::String`, quoted and escaped by `serde_json`).
pub uninterp spec fn json_string_text(s: Seq<char>) -> Seq<char>;

/// `after` is `before` with the JSON string `reason` stored under the key
/// `fail_reason` when `before` is an object (a key already there takes the
/// new value), and `before` unchanged otherwise.
pub open spec fn fail_reason_recorded(
    before: serde_json::Value,
    reason: Seq<char>,
    after: serde_json::Value,
) -> bool {
    match json_object_entries(before) {
        Some(m) => json_object_entries(after) == Some(
            m.insert("fail_reason"@, json_string_text(reason)),
        ),
        None => after == before,
    }
}

/// Calls `serde_json::Map::insert` on the object inside `doc` (found with
/// `serde_json::Value::as_object_mut`), setting `key` to
/// `serde_json::Value::String(value)`; a `doc` that is not an object is left
/// as it is. The contract claims just that, over `json_object_entries`:
/// `Map::insert` adds the key or replaces its value and keeps every other
/// entry.
#[verifier::external_body]
pub fn json_insert_string(doc: &mut serde_json::Value, key: &str, value: &str)
    ensures
        json_object_entries(*old(doc)) is None ==> *final(doc) == *old(doc),
        json_object_entries(*old(doc)) matches Some(m) ==> json_object_entries(*final(doc))
            == Some(m.insert(key@, json_string_text(value@))),
{
    if let Some(obj) = doc.as_object_mut() {
        obj.insert(key.to_string(), serde_json::Value::String(value.to_string()));
    }
}

} // verus!
