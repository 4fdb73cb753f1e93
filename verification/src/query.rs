//! The pure parts of one query round-trip: building the prompt and the
//! request URL, joining and validating the query the user typed, and
//! deciding what one upstream reply means.  The network call itself lives
//! with the surrounding program; everything here is a total function from
//! plain values to plain values.

use crate::render::{spec_is_whitespace, is_whitespace_char};
use vstd::prelude::*;

verus! {

/// Why the program gives up before or after its one dispatch.
#[derive(Clone, Debug, PartialEq, Eq)]
pub enum CliError {
    /// No API credential was configured.
    MissingCredential,
    /// The query was empty or nothing but whitespace.
    EmptyQuery,
    /// The network call failed or the upstream answered with a non-success
    /// status; the payload carries the upstream detail.
    DispatchFailure(String),
    /// The upstream payload did not hold the expected text field.
    MalformedUpstreamPayload,
}

impl CliError {
    /// The message the program reports for this error.
    pub open spec fn spec_describe(&self) -> Seq<char> {
        match self {
            CliError::MissingCredential => "Error: GEMINI_API_KEY environment variable not set"@,
            CliError::EmptyQuery => "Error: Please provide a search query"@,
            CliError::DispatchFailure(d) => "API request failed: "@ + d@,
            CliError::MalformedUpstreamPayload => "No valid response found in API response"@,
        }
    }

    /// Renders the message the program reports for this error.
    pub fn describe(&self) -> (r: String)
        ensures
            r@ == self.spec_describe(),
    {
        match self {
            CliError::MissingCredential => String::from_str(
                "Error: GEMINI_API_KEY environment variable not set",
            ),
            CliError::EmptyQuery => String::from_str("Error: Please provide a search query"),
            CliError::DispatchFailure(d) => {
                let s = String::from_str("API request failed: ");
                s.concat(d.as_str())
            },
            CliError::MalformedUpstreamPayload => String::from_str(
                "No valid response found in API response",
            ),
        }
    }
}

/// What stands around the user's query in the prompt sent upstream.
pub open spec fn prompt_prefix() -> Seq<char> {
    "User query: '"@
}

/// The rules appended after the user's query in the prompt sent upstream.
pub open spec fn prompt_suffix() -> Seq<char> {
    "'\n\n            Rules:\n            - Be extremely concise and direct\n            - If asking for installation: Only provide the exact commands needed, nothing else\n            - If asking how to do something: Only provide the minimal steps/commands\n            - No explanations, no background info, no troubleshooting unless specifically asked\n            - No introductory text or conclusions\n            - Format: Just the essential commands or answer\n\n            Respond with only what's necessary to answer the query."@
}

/// Builds the prompt sent upstream: the query, quoted, followed by the
/// fixed conciseness rules.
pub fn build_prompt(query: &str) -> (p: String)
    ensures
        p@ == prompt_prefix() + query@ + prompt_suffix(),
{
    let s = String::from_str("User query: '");
    let s = s.concat(query);
    s.concat(
        "'\n\n            Rules:\n            - Be extremely concise and direct\n            - If asking for installation: Only provide the exact commands needed, nothing else\n            - If asking how to do something: Only provide the minimal steps/commands\n            - No explanations, no background info, no troubleshooting unless specifically asked\n            - No introductory text or conclusions\n            - Format: Just the essential commands or answer\n\n            Respond with only what's necessary to answer the query.",
    )
}

/// The configuration of one dispatch: the credential and the endpoint.
pub struct GeminiClient {
    pub api_key: String,
    pub base_url: String,
}

impl GeminiClient {
    /// The fixed generation endpoint.
    pub open spec fn spec_endpoint() -> Seq<char> {
        "https://generativelanguage.googleapis.com/v1beta/models/gemini-2.0-flash:generateContent"@
    }

    /// A client for the fixed endpoint, holding the given credential.
    pub fn new(api_key: String) -> (c: GeminiClient)
        ensures
            c.api_key@ == api_key@,
            c.base_url@ == GeminiClient::spec_endpoint(),
    {
        GeminiClient {
            api_key,
            base_url: String::from_str(
                "https://generativelanguage.googleapis.com/v1beta/models/gemini-2.0-flash:generateContent",
            ),
        }
    }

    /// The URL of one request: the endpoint with the credential appended
    /// as its query parameter.
    pub fn request_url(&self) -> (u: String)
        ensures
            u@ == self.base_url@ + "?key="@ + self.api_key@,
    {
        let u = self.base_url.clone();
        let u = u.concat("?key=");
        u.concat(self.api_key.as_str())
    }
}

/// The query tokens joined with single spaces.
pub open spec fn spec_join_spaces(ps: Seq<Seq<char>>) -> Seq<char>
    decreases ps.len(),
{
    if ps.len() == 0 {
        Seq::empty()
    } else if ps.len() == 1 {
        ps[0]
    } else {
        ps[0] + " "@ + spec_join_spaces(ps.skip(1))
    }
}

/// Joining one more token appends a space and the token.
proof fn lemma_join_spaces_push(ps: Seq<Seq<char>>, x: Seq<char>)
    requires
        ps.len() >= 1,
    ensures
        spec_join_spaces(ps.push(x)) == spec_join_spaces(ps) + " "@ + x,
    decreases ps.len(),
{
    if ps.len() == 1 {
        assert(ps.push(x)[0] == ps[0]);
        let t = ps.push(x).skip(1);
        assert(t =~= seq![x]);
        assert(spec_join_spaces(t) == x);
    } else {
        let t = ps.skip(1);
        assert(ps.push(x).skip(1) =~= t.push(x));
        lemma_join_spaces_push(t, x);
        assert(ps.push(x)[0] == ps[0]);
        assert(ps[0] + " "@ + (spec_join_spaces(t) + " "@ + x) =~= (ps[0] + " "@
            + spec_join_spaces(t)) + " "@ + x);
    }
}

/// Joins the query tokens with single spaces, as `spec_join_spaces` does.
pub fn join_query_parts(parts: &Vec<String>) -> (q: String)
    ensures
        q@ == spec_join_spaces(parts.deep_view()),
{
    let n = parts.len();
    if n == 0 {
        let q = String::new();
        proof {
            assert(q@ =~= spec_join_spaces(parts.deep_view()));
        }
        return q;
    }
    let mut q = parts[0].clone();
    let mut i: usize = 1;
    proof {
        assert(parts.deep_view().take(1) =~= seq![parts.deep_view()[0]]);
        assert(spec_join_spaces(parts.deep_view().take(1)) == parts.deep_view()[0]);
        assert(parts.deep_view()[0] == parts@[0]@);
    }
    while i < n
        invariant
            1 <= i <= n,
            n == parts@.len(),
            q@ == spec_join_spaces(parts.deep_view().take(i as int)),
        decreases n - i,
    {
        proof {
            let dv = parts.deep_view();
            lemma_join_spaces_push(dv.take(i as int), dv[i as int]);
            assert(dv.take(i as int).push(dv[i as int]) =~= dv.take(i + 1));
            assert(dv[i as int] == parts@[i as int]@);
        }
        q.append(" ");
        q.append(parts[i].as_str());
        i = i + 1;
    }
    proof {
        assert(parts.deep_view().take(n as int) =~= parts.deep_view());
    }
    q
}

/// Nothing but whitespace, or nothing at all.
pub open spec fn spec_is_blank(s: Seq<char>) -> bool {
    forall|i: int| 0 <= i < s.len() ==> spec_is_whitespace(#[trigger] s[i])
}

/// Decides whether `s` is blank: what `s.trim().is_empty()` decides.
pub fn is_blank(s: &str) -> (r: bool)
    ensures
        r == spec_is_blank(s@),
{
    let n = s.unicode_len();
    let mut i: usize = 0;
    while i < n
        invariant
            0 <= i <= n,
            n == s@.len(),
            forall|j: int| 0 <= j < i ==> spec_is_whitespace(#[trigger] s@[j]),
        decreases n - i,
    {
        if !is_whitespace_char(s.get_char(i)) {
            return false;
        }
        i = i + 1;
    }
    true
}

/// Joins the query tokens with single spaces and rejects a blank result.
/// The outcome is `Ok` with the joined query exactly when that query holds
/// a character that is not whitespace; otherwise the query is empty.
pub fn prepare_query(parts: &Vec<String>) -> (r: Result<String, CliError>)
    ensures
        match r {
            Ok(q) => q@ == spec_join_spaces(parts.deep_view()) && !spec_is_blank(q@),
            Err(e) => e == CliError::EmptyQuery && spec_is_blank(
                spec_join_spaces(parts.deep_view()),
            ),
        },
{
    let q = join_query_parts(parts);
    if is_blank(q.as_str()) {
        Err(CliError::EmptyQuery)
    } else {
        Ok(q)
    }
}

/// Decides what one upstream reply means.  A successful status with an
/// extracted text field yields that text; a failed status is a dispatch
/// failure carrying the upstream detail; a successful status whose payload
/// held no text field is a malformed payload.  Exactly one of the three
/// happens.
pub fn evaluate_reply(status_ok: bool, detail: String, text: Option<String>) -> (r: Result<
    String,
    CliError,
>)
    ensures
        match r {
            Ok(t) => status_ok && match text {
                Some(x) => t == x,
                None => false,
            },
            Err(e) => match e {
                CliError::DispatchFailure(d) => !status_ok && d == detail,
                CliError::MalformedUpstreamPayload => status_ok && text is None,
                _ => false,
            },
        },
{
    if !status_ok {
        Err(CliError::DispatchFailure(detail))
    } else {
        match text {
            Some(t) => Ok(t),
            None => Err(CliError::MalformedUpstreamPayload),
        }
    }
}

} // verus!
