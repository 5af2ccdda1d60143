//! The JSON value type of `serde_json`, carried through the library as
//! opaque data, and the reading of JSON texts: string lists, parse errors
//! and the members of an object.
use vstd::prelude::*;

verus! {

/// `serde_json::Value`, held but never inspected by verified code.
#[verifier::external_type_specification]
#[verifier::external_body]
pub struct ExJsonValue(serde_json::Value);

/// The strings of a JSON array of strings, as `serde_json::from_str::<Vec<String>>`
/// reads them; `None` when the text is not such an array.
pub uninterp spec fn json_string_list(text: Seq<char>) -> Option<Seq<Seq<char>>>;

/// Reads a JSON array of strings with `serde_json::from_str`.
#[verifier::external_body]
pub(crate) fn parse_string_list(text: &str) -> (r: Option<Vec<String>>)
    ensures
        match r {
            Some(v) => json_string_list(text@) == Some(v@.map_values(|s: String| s@)),
            None => json_string_list(text@) is None,
        },
{
    serde_json::from_str::<Vec<String>>(text).ok()
}

/// Whether `serde_json::from_str::<serde_json::Value>` accepts a text.
pub uninterp spec fn json_parses(text: Seq<char>) -> bool;

/// Whether a text is a JSON document, as `serde_json::from_str` reads it.
#[verifier::external_body]
pub(crate) fn is_json(text: &str) -> (b: bool)
    ensures
        b == json_parses(text@),
{
    serde_json::from_str::<serde_json::Value>(text).is_ok()
}

/// The message of the error `serde_json::from_str::<serde_json::Value>`
/// reports for a text; `None` when the text parses.
pub uninterp spec fn json_error(text: Seq<char>) -> Option<Seq<char>>;

/// Parses a text with `serde_json::from_str` and returns the error's message.
#[verifier::external_body]
pub(crate) fn json_parse_error(text: &str) -> (r: Option<String>)
    ensures
        match r {
            Some(m) => json_error(text@) == Some(m@),
            None => json_error(text@) is None,
        },
{
    serde_json::from_str::<serde_json::Value>(text).err().map(|e| e.to_string())
}

/// The member `key` of the JSON text, read with `serde_json::Value::as_u64`;
/// `None` when the text does not parse, has no such member, or it is not
/// such a number.
pub uninterp spec fn json_u64_member(text: Seq<char>, key: Seq<char>) -> Option<u64>;

/// Reads a whole-number member of a JSON text with `serde_json`.
#[verifier::external_body]
pub(crate) fn u64_member(text: &str, key: &str) -> (r: Option<u64>)
    ensures
        r == json_u64_member(text@, key@),
{
    let v: Option<serde_json::Value> = serde_json::from_str(text).ok();
    v.and_then(|v| v.get(key).and_then(|x| x.as_u64()))
}

/// The member `key` of the JSON text, read with `serde_json::Value::as_str`.
pub uninterp spec fn json_str_member(text: Seq<char>, key: Seq<char>) -> Option<Seq<char>>;

/// Reads a string member of a JSON text with `serde_json`.
#[verifier::external_body]
pub(crate) fn str_member(text: &str, key: &str) -> (r: Option<String>)
    ensures
        match r {
            Some(s) => json_str_member(text@, key@) == Some(s@),
            None => json_str_member(text@, key@) is None,
        },
{
    let v: Option<serde_json::Value> = serde_json::from_str(text).ok();
    v.and_then(|v| v.get(key).and_then(|x| x.as_str().map(|s| s.to_string())))
}

/// The entries of the object member `key` of the JSON text, in the order
/// `serde_json`'s map keeps them, each value read with `as_str`.
pub uninterp spec fn json_object_member(text: Seq<char>, key: Seq<char>) -> Option<Seq<(Seq<char>, Option<Seq<char>>)>>;

/// The entry views of an object's members.
pub open spec fn member_views(v: Seq<(String, Option<String>)>) -> Seq<(Seq<char>, Option<Seq<char>>)> {
    v.map_values(|e: (String, Option<String>)| (e.0@, match e.1 { Some(s) => Some(s@), None => None }))
}

/// Reads the entries of an object member of a JSON text with `serde_json`.
#[verifier::external_body]
pub(crate) fn object_member(text: &str, key: &str) -> (r: Option<Vec<(String, Option<String>)>>)
    ensures
        match r {
            Some(v) => json_object_member(text@, key@) == Some(member_views(v@)),
            None => json_object_member(text@, key@) is None,
        },
{
    let v: Option<serde_json::Value> = serde_json::from_str(text).ok();
    let obj = v.and_then(|v| v.get(key).and_then(|x| x.as_object().cloned()));
    obj.map(|m| m.iter().map(|(k, x)| (k.clone(), x.as_str().map(|s| s.to_string()))).collect())
}

/// The elements of the array member `key` of the JSON text, each read with
/// `serde_json::Value::as_str`; `None` when the text does not parse, has no
/// such member, or it is not an array.
pub uninterp spec fn json_array_member(text: Seq<char>, key: Seq<char>) -> Option<Seq<Option<Seq<char>>>>;

/// The views of optional texts.
pub open spec fn option_views(v: Seq<Option<String>>) -> Seq<Option<Seq<char>>> {
    v.map_values(|e: Option<String>| match e { Some(s) => Some(s@), None => None })
}

/// Reads the elements of an array member of a JSON text with `serde_json`.
#[verifier::external_body]
pub(crate) fn array_member(text: &str, key: &str) -> (r: Option<Vec<Option<String>>>)
    ensures
        match r {
            Some(v) => json_array_member(text@, key@) == Some(option_views(v@)),
            None => json_array_member(text@, key@) is None,
        },
{
    let v: Option<serde_json::Value> = serde_json::from_str(text).ok();
    let arr = v.and_then(|v| v.get(key).and_then(|x| x.as_array().cloned()));
    arr.map(|a| a.iter().map(|e| e.as_str().map(|s| s.to_string())).collect())
}

/// The elements of the JSON text when it is an array: each read with
/// `serde_json::Value::as_str`, and with `as_array` (its elements read with
/// `as_str`); `None` when the text does not parse or is not an array.
pub uninterp spec fn json_array_items(text: Seq<char>) -> Option<Seq<(Option<Seq<char>>, Option<Seq<Option<Seq<char>>>>)>>;

/// The views of array elements read both ways.
pub open spec fn item_views(v: Seq<(Option<String>, Option<Vec<Option<String>>>)>)
    -> Seq<(Option<Seq<char>>, Option<Seq<Option<Seq<char>>>>)> {
    v.map_values(|e: (Option<String>, Option<Vec<Option<String>>>)| (
        match e.0 { Some(s) => Some(s@), None => None },
        match e.1 { Some(a) => Some(option_views(a@)), None => None },
    ))
}

/// Reads the elements of a JSON array text with `serde_json`.
#[verifier::external_body]
pub(crate) fn array_items(text: &str) -> (r: Option<Vec<(Option<String>, Option<Vec<Option<String>>>)>>)
    ensures
        match r {
            Some(v) => json_array_items(text@) == Some(item_views(v@)),
            None => json_array_items(text@) is None,
        },
{
    let v: Option<serde_json::Value> = serde_json::from_str(text).ok();
    let arr = v.and_then(|v| v.as_array().cloned());
    arr.map(|a| a.iter().map(|e| (
        e.as_str().map(|s| s.to_string()),
        e.as_array().map(|x| x.iter().map(|y| y.as_str().map(|s| s.to_string())).collect()),
    )).collect())
}

} // verus!
