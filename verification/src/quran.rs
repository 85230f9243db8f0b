//! Verse lookup shapes and the compute side of the verse endpoint: the
//! cached verse is a JSON list of words, which is parsed, joined with
//! commas, and wrapped in the response shape.

use vstd::prelude::*;
use vstd::string::*;

use crate::errors::AppError;
use crate::kv::{json_string_list, parse_string_list};
use crate::text::join_spec;

verus! {

/// A request for one verse, by chapter and verse number.
#[derive(Debug, Clone, Copy, PartialEq, Eq, Structural)]
pub struct QuranApiRequest {
    pub surah: u32,
    pub verse: u32,
}

/// The verse text returned to the caller, with the script mode it is
/// rendered in.
#[derive(Debug)]
pub struct QuranApiRedisResponse {
    pub text: Vec<String>,
    pub mode: String,
}

/// Builds the verse response from the cached raw value: the JSON word list
/// is parsed and joined with commas into a single line in the indopak
/// script mode; an unparseable value is a storage error.
pub fn verse_words_response(raw: &str) -> (r: Result<QuranApiRedisResponse, AppError>)
    ensures
        match r {
            Result::Ok(resp) => {
                &&& json_string_list(raw@) is Some
                &&& resp.text@.len() == 1
                &&& resp.text@[0]@ == join_spec(json_string_list(raw@)->0, ", "@)
                &&& resp.mode@ == "indopak"@
            },
            Result::Err(e) => json_string_list(raw@) is None && e is StorageError,
        },
{
    match parse_string_list(raw) {
        Option::Some(words) => {
            let joined = crate::text::join_with(&words, ", ");
            let mut text: Vec<String> = Vec::new();
            text.push(joined);
            Result::Ok(QuranApiRedisResponse { text, mode: String::from_str("indopak") })
        },
        Option::None => Result::Err(
            AppError::StorageError(String::from_str("Failed to parse verse data")),
        ),
    }
}

} // verus!
