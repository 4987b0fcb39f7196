//! The views of optional values and of outcomes, and how they are handed on.

use crate::json::{Json, JsonView};
use vstd::prelude::*;

verus! {

/// The view of an optional text.
pub open spec fn text_view(s: Option<&str>) -> Option<Seq<char>> {
    match s {
        Some(s) => Some(s@),
        None => None,
    }
}

/// The view of an optional string.
pub open spec fn string_view(s: Option<String>) -> Option<Seq<char>> {
    match s {
        Some(s) => Some(s@),
        None => None,
    }
}

/// The text, or the other one where it is missing.
pub open spec fn text_or(text: Option<Seq<char>>, other: Seq<char>) -> Seq<char> {
    match text {
        Some(t) => t,
        None => other,
    }
}

/// The view of an optional value.
pub open spec fn value_view(v: Option<Json>) -> Option<JsonView> {
    match v {
        Some(v) => Some(v@),
        None => None,
    }
}

/// The view of a reply or of a failure.
pub open spec fn reply_view(reply: Result<Json, String>) -> Result<JsonView, Seq<char>> {
    match reply {
        Ok(value) => Ok(value@),
        Err(error) => Err(error@),
    }
}

/// The view of a success or of a failure.
pub open spec fn done_view(r: Result<(), String>) -> Result<(), Seq<char>> {
    match r {
        Ok(_) => Ok(()),
        Err(error) => Err(error@),
    }
}

/// Copies an optional string.
pub fn copy_string(s: &Option<String>) -> (r: Option<String>)
    ensures
        r == *s,
{
    match s {
        Some(s) => Some(s.clone()),
        None => None,
    }
}

/// The text of an optional string.
pub fn as_text(s: &Option<String>) -> (r: Option<&str>)
    ensures
        text_view(r) == string_view(*s),
{
    match s {
        Some(s) => Some(s.as_str()),
        None => None,
    }
}

/// The views of optional values and of outcomes keep what they hold.
pub proof fn law_views_keep_what_they_hold(
    text: &str,
    string: String,
    other: Seq<char>,
    value: Json,
)
    ensures
        text_view(Some(text)) == Some(text@),
        text_view(None) is None,
        string_view(Some(string)) == Some(string@),
        string_view(None) is None,
        text_or(Some(text@), other) == text@,
        text_or(None, other) == other,
        value_view(Some(value)) == Some(value@),
        value_view(None) is None,
        reply_view(Ok(value)) == Ok::<JsonView, Seq<char>>(value@),
        reply_view(Err(string)) == Err::<JsonView, Seq<char>>(string@),
        done_view(Ok(())) == Ok::<(), Seq<char>>(()),
        done_view(Err(string)) == Err::<(), Seq<char>>(string@),
{
}

} // verus!
