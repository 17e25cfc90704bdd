//! JSON, as far as the providers read it. The parsing itself is serde_json's.

use vstd::prelude::*;

verus! {

/// `serde_json::Error`: why a text is no JSON of the shape asked for.
#[verifier::external_type_specification]
#[verifier::external_body]
pub struct ExJsonError(serde_json::Error);

/// What `serde_json::from_str` makes of `text` when asked for a list of
/// strings: the strings, or nothing where `text` is no JSON array of strings.
pub uninterp spec fn json_string_list(text: Seq<char>) -> Option<Seq<Seq<char>>>;

/// What `serde_json::from_str` finds under `key` in the JSON object `text`,
/// written out as JSON again; nothing where `text` is no JSON or holds no
/// such member.
pub uninterp spec fn json_member(text: Seq<char>, key: Seq<char>) -> Option<Seq<char>>;

/// Reads `text` as a JSON array of strings.
///
/// This is `serde_json::from_str::<Vec<String>>`. Believed of it: whether
/// it succeeds, and with which strings, depends on `text` alone.
#[verifier::external_body]
pub(crate) fn parse_string_list(text: &str) -> (r: Result<Vec<String>, serde_json::Error>)
    ensures
        match r {
            Ok(items) => json_string_list(text@) == Some(items@.map_values(|s: String| s@)),
            Err(_) => json_string_list(text@) is None,
        },
{
    serde_json::from_str::<Vec<String>>(text)
}

/// The error as text: its `Debug` form. Nothing is claimed of it.
#[verifier::external_body]
pub(crate) fn error_text(err: &serde_json::Error) -> String {
    format!("{:?}", err)
}

/// Reads `text` as JSON and gives the member `key` of it, written out as
/// JSON again.
///
/// This is `serde_json::from_str::<Value>`, then `Value::get` with a string
/// index, then the value's `to_string`. Believed of them: what comes out
/// depends on `text` and `key` alone.
#[verifier::external_body]
pub(crate) fn member_text(text: &str, key: &str) -> (r: Option<String>)
    ensures
        match r {
            Some(member) => json_member(text@, key@) == Some(member@),
            None => json_member(text@, key@) is None,
        },
{
    let value = serde_json::from_str::<serde_json::Value>(text).ok()?;
    let member = value.get(key)?;
    Some(member.to_string())
}

} // verus!
