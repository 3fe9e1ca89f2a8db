//! JSON well-formedness, as decided by `serde_json`.

use vstd::prelude::*;

verus! {

/// What `serde_json` reports when it reads `text` as one JSON document:
/// `None` when the text is one, else the displayed message of its error
/// (which names the fault and where it lies in the text).
pub uninterp spec fn json_parse_failure(text: Seq<char>) -> Option<Seq<char>>;

/// Whether `text` is one complete JSON document, as `serde_json` parses it.
pub open spec fn json_text_is_valid(text: Seq<char>) -> bool {
    json_parse_failure(text) is None
}

/// Calls `serde_json::from_str::<serde_json::Value>` on `text`. The
/// contract claims that the outcome, and the message of a failure, are a
/// fixed function of the text.
#[verifier::external_body]
pub(crate) fn json_syntax_error(text: &str) -> (r: Option<String>)
    ensures
        r is None <==> json_text_is_valid(text@),
        r matches Some(message) ==> json_parse_failure(text@) == Some(message@),
{
    match serde_json::from_str::<serde_json::Value>(text) {
        Ok(_) => None,
        Err(error) => Some(error.to_string()),
    }
}

/// The JSON string literal that `serde_json` writes for `text`, quotes and
/// escapes included.
pub uninterp spec fn json_quoted(text: Seq<char>) -> Seq<char>;

/// The text of the string member `key` of the JSON object `text`, as
/// `serde_json` reads it: `None` when `text` is not a JSON document, not an
/// object, lacks the member, or the member is not a string.
pub uninterp spec fn json_member_text(text: Seq<char>, key: Seq<char>) -> Option<Seq<char>>;

/// Writes `text` as a JSON string (`serde_json::Value::String(..).to_string()`).
/// The contract claims that the output is the fixed quoting of the input,
/// and that `serde_json` reads that string back as `text` when it is the
/// member of a one-member object under the keys this library writes; how
/// characters are escaped is left unsaid.
#[verifier::external_body]
pub(crate) fn json_quote(text: &str) -> (r: String)
    ensures
        r@ == json_quoted(text@),
        json_member_text("{\"path\":"@ + r@ + "}"@, "path"@) == Some(text@),
        json_member_text("{\"root\":"@ + r@ + "}"@, "root"@) == Some(text@),
{
    serde_json::Value::String(text.to_owned()).to_string()
}

/// Reads the string member `key` of the JSON object `text`
/// (`serde_json::from_str::<serde_json::Value>`, then `get` and `as_str` on
/// the parsed value). The contract claims that the result is a fixed
/// function of the two texts, and that a member is only found in a JSON
/// document.
#[verifier::external_body]
pub(crate) fn json_member(text: &str, key: &str) -> (r: Option<String>)
    ensures
        match r {
            Some(member) => json_member_text(text@, key@) == Some(member@),
            None => json_member_text(text@, key@) is None,
        },
        r is Some ==> json_text_is_valid(text@),
{
    match serde_json::from_str::<serde_json::Value>(text) {
        Ok(value) => value.get(key).and_then(serde_json::Value::as_str).map(str::to_owned),
        Err(_) => None,
    }
}


/// The strings of the JSON array `text`, as `serde_json` reads it into a
/// list of strings: `None` when `text` is not a JSON array of strings.
pub uninterp spec fn json_string_array(text: Seq<char>) -> Option<Seq<Seq<char>>>;

/// Calls `serde_json::from_str::<Vec<String>>`. The contract claims that
/// the result is the fixed reading of the text, each string by its
/// characters; the failure message is left unsaid.
#[verifier::external_body]
pub(crate) fn json_strings(text: &str) -> (r: Option<Vec<String>>)
    ensures
        match r {
            Some(items) => json_string_array(text@) == Some(items@.map_values(|item: String| item@)),
            None => json_string_array(text@) is None,
        },
{
    serde_json::from_str::<Vec<String>>(text).ok()
}

/// The text that the JSON pointer `pointer` reaches in the document
/// `text`, as `serde_json` reads it: `None` when `text` is not a JSON
/// document, the pointer reaches nothing, or what it reaches is not a
/// string.
pub uninterp spec fn json_pointer_text(text: Seq<char>, pointer: Seq<char>) -> Option<Seq<char>>;

/// The integer that the JSON pointer `pointer` reaches in the document
/// `text`, as `serde_json` reads it: `None` when `text` is not a JSON
/// document, the pointer reaches nothing, or what it reaches is not an
/// integer within `i64`.
pub uninterp spec fn json_pointer_integer(text: Seq<char>, pointer: Seq<char>) -> Option<i64>;

/// Reads the string at a JSON pointer (`serde_json::from_str::<Value>`,
/// then `pointer` and `as_str`). The contract claims that the result is a
/// fixed function of the two texts.
#[verifier::external_body]
pub(crate) fn json_text_at(text: &str, pointer: &str) -> (r: Option<String>)
    ensures
        match r {
            Some(found) => json_pointer_text(text@, pointer@) == Some(found@),
            None => json_pointer_text(text@, pointer@) is None,
        },
{
    match serde_json::from_str::<serde_json::Value>(text) {
        Ok(value) => value.pointer(pointer).and_then(serde_json::Value::as_str).map(str::to_owned),
        Err(_) => None,
    }
}

/// Reads the integer at a JSON pointer (`serde_json::from_str::<Value>`,
/// then `pointer` and `as_i64`). The contract claims that the result is a
/// fixed function of the two texts.
#[verifier::external_body]
pub(crate) fn json_integer_at(text: &str, pointer: &str) -> (r: Option<i64>)
    ensures
        r == json_pointer_integer(text@, pointer@),
{
    match serde_json::from_str::<serde_json::Value>(text) {
        Ok(value) => value.pointer(pointer).and_then(serde_json::Value::as_i64),
        Err(_) => None,
    }
}

} // verus!
