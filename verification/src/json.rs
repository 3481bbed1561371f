//! Reading the json texts stored in content and message values.
use vstd::prelude::*;

verus! {

/// The integer a json text holds, if it is one (deterministic in the text).
pub uninterp spec fn json_i64(s: Seq<char>) -> Option<i64>;

/// The string a json text holds, if it is one (deterministic in the text).
pub uninterp spec fn json_string(s: Seq<char>) -> Option<Seq<char>>;

/// The list of strings a json text holds, if it is one (deterministic in the text).
pub uninterp spec fn json_string_list(s: Seq<char>) -> Option<Seq<Seq<char>>>;

pub open spec fn strings_view(v: Seq<String>) -> Seq<Seq<char>> {
    v.map_values(|x: String| x@)
}

/// Read a json integer.
/// Trusted: `serde_json::from_str::<i64>`; its result is named `json_i64` and depends on the text alone.
#[verifier::external_body]
pub(crate) fn parse_json_i64(s: &str) -> (r: Option<i64>)
    ensures
        r == json_i64(s@),
{
    serde_json::from_str::<i64>(s).ok()
}

/// Read a json string.
/// Trusted: `serde_json::from_str::<String>`; its result is named `json_string` and depends on the text alone.
#[verifier::external_body]
pub(crate) fn parse_json_string(s: &str) -> (r: Option<String>)
    ensures
        match r {
            Some(v) => json_string(s@) == Some(v@),
            None => json_string(s@) is None,
        },
{
    serde_json::from_str::<String>(s).ok()
}

/// Read a json list of strings.
/// Trusted: `serde_json::from_str::<Vec<String>>`; its result is named `json_string_list` and depends
/// on the text alone.
#[verifier::external_body]
pub(crate) fn parse_json_string_list(s: &str) -> (r: Option<Vec<String>>)
    ensures
        match r {
            Some(v) => json_string_list(s@) == Some(strings_view(v@)),
            None => json_string_list(s@) is None,
        },
{
    serde_json::from_str::<Vec<String>>(s).ok()
}

/// The string a json text holds when it needs no unescaping, so that it can be borrowed
/// from the text (deterministic in the text).
pub uninterp spec fn json_borrowed_str(s: Seq<char>) -> Option<Seq<char>>;

/// Read a json string that can be borrowed from the text.
/// Trusted: `serde_json::from_str::<&str>`, with the borrowed result copied; its result is
/// named `json_borrowed_str`.
#[verifier::external_body]
pub(crate) fn parse_json_borrowed_str(s: &str) -> (r: Option<String>)
    ensures
        match r {
            Some(v) => json_borrowed_str(s@) == Some(v@),
            None => json_borrowed_str(s@) is None,
        },
{
    serde_json::from_str::<&str>(s).ok().map(|v| v.to_string())
}

/// The items of a json array, each written back as compact json text, if the text holds an
/// array (deterministic in the text).
pub uninterp spec fn json_array_items(s: Seq<char>) -> Option<Seq<Seq<char>>>;

/// Read a json array, keeping each item as its json text.
/// Trusted: `serde_json::from_str::<Vec<serde_json::Value>>`, each item written back with
/// `to_string`; its result is named `json_array_items`.
#[verifier::external_body]
pub(crate) fn parse_json_array(s: &str) -> (r: Option<Vec<String>>)
    ensures
        match r {
            Some(v) => json_array_items(s@) == Some(strings_view(v@)),
            None => json_array_items(s@) is None,
        },
{
    match serde_json::from_str::<Vec<serde_json::Value>>(s) {
        Ok(items) => Some(items.iter().map(|item| item.to_string()).collect()),
        Err(_) => None,
    }
}

/// The json text of a list of strings, or `None` when serialising fails (deterministic in
/// the strings).
pub uninterp spec fn json_of_strings(v: Seq<Seq<char>>) -> Option<Seq<char>>;

/// Write a list of strings as json.
/// Trusted: `serde_json::to_string` on a `Vec<String>`; its result is named `json_of_strings`.
#[verifier::external_body]
pub(crate) fn strings_to_json(v: &Vec<String>) -> (r: Option<String>)
    ensures
        match r {
            Some(t) => json_of_strings(strings_view(v@)) == Some(t@),
            None => json_of_strings(strings_view(v@)) is None,
        },
{
    serde_json::to_string(v).ok()
}

} // verus!
