//! Reading request bodies as JSON, through `serde_json`: whether a text
//! parses, and what a JSON pointer finds in it.
use vstd::prelude::*;
use crate::text::strings_view;

verus! {

/// The message of `serde_json`'s error when a text does not parse as JSON;
/// `None` when it does.
pub uninterp spec fn json_parse_error(text: Seq<char>) -> Option<Seq<char>>;

/// Whether a JSON pointer finds a value in a text that parses as JSON.
pub uninterp spec fn json_found(text: Seq<char>, pointer: Seq<char>) -> bool;

/// The string a JSON pointer finds in a text that parses as JSON; `None`
/// when the text does not parse, nothing is found, or it is not a string.
pub uninterp spec fn json_text(text: Seq<char>, pointer: Seq<char>) -> Option<Seq<char>>;

/// `serde_json::from_str::<serde_json::Value>`: the error's message when the
/// text does not parse. Nothing is claimed of the message's wording.
#[verifier::external_body]
pub(crate) fn json_error(text: &str) -> (r: Option<String>)
    ensures
        r matches Some(e) ==> json_parse_error(text@) == Some(e@),
        r is None ==> json_parse_error(text@) is None,
{
    match serde_json::from_str::<serde_json::Value>(text) {
        Ok(_) => None,
        Err(e) => Some(e.to_string()),
    }
}

/// `serde_json::from_str::<serde_json::Value>` then `Value::pointer`:
/// whether the pointer finds a value. A value is only found in a text that
/// parses.
#[verifier::external_body]
pub(crate) fn json_has(text: &str, pointer: &str) -> (r: bool)
    ensures
        r == json_found(text@, pointer@),
        r ==> json_parse_error(text@) is None,
{
    match serde_json::from_str::<serde_json::Value>(text) {
        Ok(v) => v.pointer(pointer).is_some(),
        Err(_) => false,
    }
}

/// `serde_json::from_str::<serde_json::Value>`, `Value::pointer`, then
/// `Value::as_str`: the string the pointer finds. A string is only found
/// where a value is found.
#[verifier::external_body]
pub(crate) fn json_str(text: &str, pointer: &str) -> (r: Option<String>)
    ensures
        match r {
            Some(s) => json_text(text@, pointer@) == Some(s@),
            None => json_text(text@, pointer@) is None,
        },
        r is Some ==> json_found(text@, pointer@),
{
    match serde_json::from_str::<serde_json::Value>(text) {
        Ok(v) => match v.pointer(pointer) {
            Some(serde_json::Value::String(s)) => Some(s.clone()),
            _ => None,
        },
        Err(_) => None,
    }
}

/// The boolean a JSON pointer finds in a text that parses as JSON; `None`
/// otherwise.
pub uninterp spec fn json_bool_at(text: Seq<char>, pointer: Seq<char>) -> Option<bool>;

/// The unsigned integer (that fits in `u64`) a JSON pointer finds in a text
/// that parses as JSON; `None` otherwise.
pub uninterp spec fn json_u64_at(text: Seq<char>, pointer: Seq<char>) -> Option<u64>;

/// `serde_json::from_str::<serde_json::Value>`, `Value::pointer`, then
/// `Value::as_bool`: the boolean the pointer finds.
#[verifier::external_body]
pub(crate) fn json_bool(text: &str, pointer: &str) -> (r: Option<bool>)
    ensures
        r == json_bool_at(text@, pointer@),
{
    match serde_json::from_str::<serde_json::Value>(text) {
        Ok(v) => match v.pointer(pointer) {
            Some(x) => x.as_bool(),
            None => None,
        },
        Err(_) => None,
    }
}

/// `serde_json::from_str::<serde_json::Value>`, `Value::pointer`, then
/// `Value::as_u64`: the unsigned integer the pointer finds.
#[verifier::external_body]
pub(crate) fn json_u64(text: &str, pointer: &str) -> (r: Option<u64>)
    ensures
        r == json_u64_at(text@, pointer@),
{
    match serde_json::from_str::<serde_json::Value>(text) {
        Ok(v) => match v.pointer(pointer) {
            Some(x) => x.as_u64(),
            None => None,
        },
        Err(_) => None,
    }
}

/// The length of the array a JSON pointer finds in a text that parses as
/// JSON; `None` when it finds no array.
pub uninterp spec fn json_array_len_at(text: Seq<char>, pointer: Seq<char>) -> Option<usize>;

/// `serde_json::from_str::<serde_json::Value>`, `Value::pointer`, then
/// `Value::as_array`: the length of the array the pointer finds.
#[verifier::external_body]
pub(crate) fn json_array_len(text: &str, pointer: &str) -> (r: Option<usize>)
    ensures
        r == json_array_len_at(text@, pointer@),
{
    match serde_json::from_str::<serde_json::Value>(text) {
        Ok(v) => match v.pointer(pointer) {
            Some(serde_json::Value::Array(items)) => Some(items.len()),
            _ => None,
        },
        Err(_) => None,
    }
}

/// The keys of the object a JSON pointer finds in a text that parses as
/// JSON, in the order `serde_json::Map` yields them; `None` when it finds no
/// object.
pub uninterp spec fn json_keys_at(text: Seq<char>, pointer: Seq<char>) -> Option<Seq<Seq<char>>>;

/// `serde_json::from_str::<serde_json::Value>`, `Value::pointer`, then
/// `Value::as_object` and `Map::keys`: the keys of the object the pointer
/// finds. Keys are only found where a value is found; their order is left
/// unsaid.
#[verifier::external_body]
pub(crate) fn json_keys(text: &str, pointer: &str) -> (r: Option<Vec<String>>)
    ensures
        match r {
            Some(k) => json_keys_at(text@, pointer@) == Some(strings_view(k@)),
            None => json_keys_at(text@, pointer@) is None,
        },
        r is Some ==> json_found(text@, pointer@),
{
    match serde_json::from_str::<serde_json::Value>(text) {
        Ok(v) => match v.pointer(pointer) {
            Some(serde_json::Value::Object(map)) => Some(map.keys().cloned().collect()),
            _ => None,
        },
        Err(_) => None,
    }
}

} // verus!
