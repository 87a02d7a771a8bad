//! The stored form of a collection: a JSON object with one member for each
//! list, the title as its name and the items as an array of strings.

use vstd::prelude::*;
use crate::error::WatchListError;
use crate::watchlist::{WatchList, WatchListEntry, WatchListFuncs};

verus! {

/// Declares `serde_json::Error`, the error of a failed encoding or
/// decoding. Nothing is known of what it holds; its message is read by
/// `error_text`.
#[verifier::external_type_specification]
#[verifier::external_body]
pub struct ExJsonError(serde_json::Error);

/// The mapping that a text decodes to as a JSON object of string arrays, or
/// `None` where the text is no such object.
pub uninterp spec fn json_lists(text: Seq<char>) -> Option<Map<Seq<char>, Seq<Seq<char>>>>;

/// Calls `serde_json::from_str` for a map from strings to vectors of
/// strings, and makes one list of each of the map's members. Trusted: the
/// outcome is a function of the text, which `json_lists` names, and no title
/// comes twice. The order of the titles is left open.
#[verifier::external_body]
fn decode(text: &str) -> (r: Result<WatchList, serde_json::Error>)
    ensures
        match r {
            Ok(w) => w.wf() && json_lists(text@) == Some(w.lists()),
            Err(_) => json_lists(text@) is None,
        },
{
    let map: std::collections::HashMap<String, Vec<String>> = serde_json::from_str(text)?;
    Ok(WatchList {
        entries: map.into_iter().map(|(title, items)| WatchListEntry { title, items }).collect(),
    })
}

/// Calls `serde_json::to_string` on the lists as a map from titles to
/// items. Trusted: the call succeeds, since the text is written to memory
/// and every title and item is a string; and the text that comes out decodes
/// to the same lists again. The order of the members in the text is left
/// open.
#[verifier::external_body]
fn encode(w: &WatchList) -> (r: Result<String, serde_json::Error>)
    requires
        w.wf(),
    ensures
        r is Ok,
        r matches Ok(text) ==> json_lists(text@) == Some(w.lists()),
{
    let map: std::collections::HashMap<&String, &Vec<String>> = w.entries.iter().map(
        |e| (&e.title, &e.items),
    ).collect();
    serde_json::to_string(&map)
}

/// Calls `to_string` on a `serde_json::Error`: its message. Nothing is
/// claimed of the text.
#[verifier::external_body]
fn error_text(e: &serde_json::Error) -> (r: String) {
    e.to_string()
}

/// Calls `serde_json::Error::is_eof`: whether the decoder failed because the
/// text ended too soon. Nothing is claimed of the answer.
#[verifier::external_body]
fn ended_early(e: &serde_json::Error) -> (r: bool) {
    e.is_eof()
}

/// What a decoding comes to: the collection, or a parse error with the
/// decoder's message.
pub fn decoded_or_error(decoded: Result<WatchList, serde_json::Error>) -> (r: Result<
    WatchList,
    WatchListError,
>)
    ensures
        match decoded {
            Ok(w) => r == Ok::<WatchList, WatchListError>(w),
            Err(_) => r is Err && r->Err_0 is ParseError,
        },
{
    match decoded {
        Ok(w) => Ok(w),
        Err(e) => Err(
            WatchListError::ParseError { message: error_text(&e), truncated: ended_early(&e) },
        ),
    }
}

/// What an encoding comes to: the text, or an I/O error with the encoder's
/// message.
pub fn encoded_or_error(encoded: Result<String, serde_json::Error>) -> (r: Result<
    String,
    WatchListError,
>)
    ensures
        match encoded {
            Ok(text) => r == Ok::<String, WatchListError>(text),
            Err(_) => r is Err && r->Err_0 is IOError,
        },
{
    match encoded {
        Ok(text) => Ok(text),
        Err(e) => Err(WatchListError::IOError(error_text(&e))),
    }
}

impl WatchList {
    /// Reads a collection from its stored form.
    pub fn from_json(text: &str) -> (r: Result<WatchList, WatchListError>)
        ensures
            match r {
                Ok(w) => w.wf() && json_lists(text@) == Some(w.lists()),
                Err(e) => json_lists(text@) is None && e is ParseError,
            },
    {
        decoded_or_error(decode(text))
    }

    /// Writes the collection in its stored form. This always succeeds, and
    /// reading the text back gives the same lists.
    pub fn to_json(&self) -> (r: Result<String, WatchListError>)
        requires
            self.wf(),
        ensures
            r matches Ok(text) && json_lists(text@) == Some(self.lists()),
    {
        encoded_or_error(encode(self))
    }
}

/// The path of the file that holds the collection: the one that the
/// environment names, or `watchlist.json` where it names none.
pub fn storage_path(from_environment: Option<String>) -> (r: String)
    ensures
        r@ == match from_environment {
            Some(path) => path@,
            None => "watchlist.json"@,
        },
{
    match from_environment {
        Some(path) => path,
        None => "watchlist.json".to_owned(),
    }
}

} // verus!
