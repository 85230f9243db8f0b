//! The compute side of the outbound service calls: building the
//! text-generation endpoint URL, building the verse-lookup URL, and judging
//! an HTTP status. The calls themselves are made by the surrounding
//! program, which hands the status and body back to the library.

use vstd::prelude::*;
use vstd::string::*;

use crate::errors::AppError;
use crate::text::{dec_str, u32_to_string};

verus! {

/// The pieces of the text-generation endpoint URL, constructed once at
/// startup from configuration and passed to whichever caller needs it.
#[derive(Debug)]
pub struct UrlBuilder {
    base_url: String,
    model_name: String,
    api_key: String,
}

impl UrlBuilder {
    /// The base URL configured for this builder.
    pub closed spec fn base_url_spec(self) -> Seq<char> {
        self.base_url@
    }

    /// The model name configured for this builder.
    pub closed spec fn model_name_spec(self) -> Seq<char> {
        self.model_name@
    }

    /// The API key configured for this builder.
    pub closed spec fn api_key_spec(self) -> Seq<char> {
        self.api_key@
    }

    /// A builder holding the three configured pieces.
    pub fn build(base_url: String, model_name: String, api_key: String) -> (r: UrlBuilder)
        ensures
            r.base_url_spec() == base_url@,
            r.model_name_spec() == model_name@,
            r.api_key_spec() == api_key@,
    {
        UrlBuilder { base_url, model_name, api_key }
    }

    /// The full generation endpoint URL:
    /// `{base}/{model}:generateContent?key={key}`.
    pub fn get_url(&self) -> (r: String)
        ensures
            r@ == self.base_url_spec() + "/"@ + self.model_name_spec() + ":generateContent?key="@
                + self.api_key_spec(),
    {
        let mut out = self.base_url.clone();
        out.append("/");
        out.append(self.model_name.as_str());
        out.append(":generateContent?key=");
        out.append(self.api_key.as_str());
        out
    }
}

/// The verse-lookup URL: `{base}/{surah}:{ayah}`.
pub fn verse_url(base_url: &str, surah: u32, ayah: u32) -> (r: String)
    ensures
        r@ == base_url@ + "/"@ + dec_str(surah as int) + ":"@ + dec_str(ayah as int),
{
    let mut out = String::from_str(base_url);
    out.append("/");
    let s = u32_to_string(surah);
    out.append(s.as_str());
    out.append(":");
    let a = u32_to_string(ayah);
    out.append(a.as_str());
    out
}

/// Whether an HTTP status code counts as success.
pub open spec fn is_success_status(status: u16) -> bool {
    200 <= status && status < 300
}

/// Judges the reply of the generation API: a non-success status is an
/// upstream error carrying the reply body; otherwise the body is handed on
/// for parsing.
pub fn llm_reply_body(status: u16, body: String) -> (r: Result<String, AppError>)
    ensures
        match r {
            Result::Ok(b) => is_success_status(status) && b@ == body@,
            Result::Err(e) => !is_success_status(status) && e is UpstreamError && e->UpstreamError_0@
                == body@,
        },
{
    if 200 <= status && status < 300 {
        Result::Ok(body)
    } else {
        Result::Err(AppError::UpstreamError(body))
    }
}

} // verus!
