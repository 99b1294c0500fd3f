//! Lists of strings as JSON text, as the store keeps them. Reading and
//! writing JSON is left to `serde_json`.

use crate::text::{opt_text, strings_seq};
use vstd::prelude::*;

verus! {

/// The JSON text of a list of strings, as `serde_json::to_string` writes
/// it. It depends on the list alone.
pub uninterp spec fn json_of_strings(list: Seq<Seq<char>>) -> Seq<char>;

/// The list of strings that a JSON text holds, as `serde_json::from_str`
/// reads it; `None` for a text that is not a JSON array of strings. It
/// depends on the text alone.
pub uninterp spec fn strings_of_json(text: Seq<char>) -> Option<Seq<Seq<char>>>;

/// Writes a list of strings with `serde_json::to_string`; the empty text
/// if that fails. The contract names the result and says nothing more of
/// it.
#[verifier::external_body]
pub(crate) fn strings_to_json(list: &Vec<String>) -> (text: String)
    ensures
        text@ == json_of_strings(strings_seq(list@)),
{
    match serde_json::to_string(list) {
        Ok(text) => text,
        Err(_) => String::new(),
    }
}

/// Reads a list of strings with `serde_json::from_str`. The contract names
/// the result and says nothing more of it.
#[verifier::external_body]
pub(crate) fn strings_from_json(text: &str) -> (list: Option<Vec<String>>)
    ensures
        match list {
            Some(l) => strings_of_json(text@) == Some(strings_seq(l@)),
            None => strings_of_json(text@) is None,
        },
{
    match serde_json::from_str::<Vec<String>>(text) {
        Ok(list) => Some(list),
        Err(_) => None,
    }
}

/// The symbols that a stored list names: those of the JSON text, or none
/// if there is no text or it cannot be read.
pub open spec fn stored_symbols(text: Option<Seq<char>>) -> Seq<Seq<char>> {
    match text {
        None => Seq::empty(),
        Some(t) => match strings_of_json(t) {
            Some(list) => list,
            None => Seq::empty(),
        },
    }
}

/// The symbols that a stored list names.
pub fn read_symbols(text: &Option<String>) -> (symbols: Vec<String>)
    ensures
        strings_seq(symbols@) == stored_symbols(opt_text(*text)),
{
    let found = match text {
        None => None,
        Some(t) => strings_from_json(t.as_str()),
    };
    match found {
        Some(list) => list,
        None => {
            let empty: Vec<String> = Vec::new();
            assert(strings_seq(empty@) =~= Seq::<Seq<char>>::empty());
            empty
        },
    }
}

/// The JSON text of a list of strings.
pub fn write_symbols(list: &Vec<String>) -> (text: String)
    ensures
        text@ == json_of_strings(strings_seq(list@)),
{
    strings_to_json(list)
}

} // verus!
