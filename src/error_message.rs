//! A human-readable message from the body of a failed service response.
use vstd::prelude::*;

verus! {

/// The string that serde_json finds at `text.outer.inner` when `text` parses
/// as JSON and that member is a string.
pub uninterp spec fn json_string_at(text: Seq<char>, outer: Seq<char>, inner: Seq<char>) -> Option<
    Seq<char>,
>;

/// Relies on `serde_json::from_str::<Value>`, `Value::get` and `Value::as_str`:
/// the string member `inner` of the member `outer` of the parsed text. Text
/// that does not parse counts as `null`, which has no members; empty text
/// does not parse.
#[verifier::external_body]
fn json_string_member(text: &str, outer: &str, inner: &str) -> (r: Option<String>)
    ensures
        match r {
            Some(m) => json_string_at(text@, outer@, inner@) == Some(m@),
            None => json_string_at(text@, outer@, inner@) is None,
        },
        text@.len() == 0 ==> r is None,
{
    let json = serde_json::from_str::<serde_json::Value>(text).unwrap_or_default();
    let member = json.get(outer)?.get(inner)?;
    member.as_str().map(String::from)
}

/// The message reported for a response body, given the `error.message`
/// string found in it, if any.
pub open spec fn error_message_for(found: Option<Seq<char>>, text: Seq<char>) -> Seq<char> {
    match found {
        Some(m) => m,
        None => if text.len() == 0 {
            "Unknown error"@
        } else {
            text
        },
    }
}

/// The message for a response body once its `error.message` string has
/// been looked up: that string if there is one, else the body itself, or
/// `Unknown error` for an empty body.
pub fn error_message_or_text(found: Option<String>, text: &str) -> (r: String)
    ensures
        r@ == error_message_for(
            match found {
                Some(m) => Some(m@),
                None => None,
            },
            text@,
        ),
{
    match found {
        Some(m) => m,
        None => if text.is_empty() {
            String::from_str("Unknown error")
        } else {
            String::from_str(text)
        },
    }
}

/// The message of a service error response: the string at `error.message`
/// when the body is JSON that has one, else the body itself, or
/// `Unknown error` for an empty body.
pub fn try_parse_error_message(text: &str) -> (r: String)
    ensures
        r@ == error_message_for(json_string_at(text@, "error"@, "message"@), text@),
        text@.len() == 0 ==> r@ == "Unknown error"@,
        r@.len() == 0 ==> json_string_at(text@, "error"@, "message"@) == Some(Seq::<char>::empty()),
{
    let found = json_string_member(text, "error", "message");
    proof {
        reveal_strlit("Unknown error");
    }
    error_message_or_text(found, text)
}

} // verus!
