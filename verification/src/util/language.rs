//! Texts in the language of the player.
//!
//! A translation is a JSON document, held as a `serde_json::Value`. Its
//! texts are the members of the top-level object that are strings.

use crate::components::shared::Core;
use crate::components::error::LanguageError;
use vstd::prelude::*;

verus! {

/// A JSON value of the `serde_json` crate. Nothing inside it is visible
/// here.
#[verifier::external_type_specification]
#[verifier::external_body]
pub struct ExJsonValue(serde_json::Value);

/// The texts of a JSON value: where the value is an object, its members
/// that are strings, by key; otherwise nothing.
pub uninterp spec fn text_members(value: serde_json::Value) -> Map<Seq<char>, Seq<char>>;

/// The string member of `data` under `key`.
///
/// Wraps the indexing of a `serde_json::Value` by a string and
/// `serde_json::Value::as_str`. Indexing gives the member under the key
/// where the value is an object that has one, and `Null` otherwise;
/// `as_str` gives the text of a string and `None` for anything else. The
/// contract says so over `text_members`.
#[verifier::external_body]
fn text_member(data: &serde_json::Value, key: &str) -> (found: Option<String>)
    ensures
        match found {
            Some(text) => text_members(*data).contains_key(key@) && text_members(*data)[key@]
                == text@,
            None => !text_members(*data).contains_key(key@),
        },
{
    match data[key].as_str() {
        Some(text) => Some(text.to_string()),
        None => None,
    }
}

/// The text that a translation holds under a key, if it holds one.
pub open spec fn translation_of(language: Option<serde_json::Value>, key: Seq<char>) -> Option<
    Seq<char>,
> {
    match language {
        Some(data) => if text_members(data).contains_key(key) {
            Some(text_members(data)[key])
        } else {
            None
        },
        None => None,
    }
}

/// What `found` holds, given the text that was looked for: the text
/// itself, or the error that no text is there.
pub fn found_or_missing(found: Option<String>) -> (text: Result<String, LanguageError>)
    ensures
        match found {
            Some(s) => text == Ok::<String, LanguageError>(s),
            None => text == Err::<String, LanguageError>(LanguageError::KeyNotFound),
        },
{
    match found {
        Some(s) => Ok(s),
        None => Err(LanguageError::KeyNotFound),
    }
}

/// The text under `key` in the loaded translation.
///
/// Fails where no translation is loaded or it has no text under the key.
pub fn get_language_value(core: &Core, key: &str) -> (text: Result<String, LanguageError>)
    ensures
        match translation_of(core.language, key@) {
            Some(s) => text is Ok && text->Ok_0@ == s,
            None => text == Err::<String, LanguageError>(LanguageError::KeyNotFound),
        },
{
    match &core.language {
        Some(data) => found_or_missing(text_member(data, key)),
        None => Err(LanguageError::KeyNotFound),
    }
}

} // verus!
