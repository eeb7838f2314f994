//! The Command Code API key, read from `~/.commandcode/auth.json`, and where the API lives.

use vstd::prelude::*;
use crate::json::{json_text, parse, get};
use crate::text::{concat2, concat3};
use super::{CollectError, error_view};

verus! {

/// Where the Command Code API lives unless the environment says otherwise.
pub const DEFAULT_BASE_URL: &'static str = "https://api.commandcode.ai";

/// How long fetched plan limits are served before they are fetched again, in seconds.
pub const CACHE_TTL_SECS: u64 = 300;

/// How long one request to the API may take, in seconds.
pub const REQUEST_TIMEOUT_SECS: u64 = 15;

/// What `read_token` gives for the text of `auth.json` at `path`: its non-empty `apiKey`;
/// `Err` carries the message of a failure.
pub open spec fn token_in(path: Seq<char>, text: Seq<char>) -> Result<Seq<char>, Seq<char>> {
    match json_text(text) {
        Err(e) => Err(path + ": "@ + e),
        Ok(v) => match get(v, "apiKey"@) {
            Some(k) => match crate::json::as_str(k) {
                Some(s) => if s.len() > 0 {
                    Ok(s)
                } else {
                    Err(path + ": sem apiKey"@)
                },
                None => Err(path + ": sem apiKey"@),
            },
            None => Err(path + ": sem apiKey"@),
        },
    }
}

/// The API key in the text of `auth.json` at `path` (as displayed).
pub fn read_token(path: &str, text: &str) -> (r: Result<String, CollectError>)
    ensures
        match r {
            Ok(k) => token_in(path@, text@) == Ok::<Seq<char>, Seq<char>>(k@),
            Err(e) => error_view(e) == Err::<Seq<char>, Seq<char>>(token_in(path@, text@)->Err_0)
                && token_in(path@, text@) is Err,
        },
{
    let value = match parse(text) {
        Ok(v) => v,
        Err(e) => return Err(CollectError::Failed(concat3(path, ": ", e.as_str()))),
    };
    match value.get("apiKey") {
        Some(k) => match k.as_str() {
            Some(s) => if !s.as_str().is_empty() {
                Ok(s.clone())
            } else {
                Err(CollectError::Failed(concat2(path, ": sem apiKey")))
            },
            None => Err(CollectError::Failed(concat2(path, ": sem apiKey"))),
        },
        None => Err(CollectError::Failed(concat2(path, ": sem apiKey"))),
    }
}

} // verus!
