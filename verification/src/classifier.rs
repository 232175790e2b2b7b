//! Interpretation of the spam classifier's reply.
//!
//! The gateway answers with a chat-completion body whose message
//! content should be a small JSON object carrying a spam score and a
//! free-text rationale. Reading both JSON layers is done by
//! serde_json behind trusted wrappers; everything decided from what
//! they return — defaults, clamping into the score range, and what
//! counts as an unusable reply — is verified here.

use vstd::prelude::*;
use vstd::string::StringExecFns;

verus! {

/// A classification: the spam score in percent, clamped to the score
/// range, and the classifier's free-text rationale.
pub struct LlmSpamResult {
    pub spam_score: u8,
    pub notes: String,
}

/// What the classifier's message content parses to: nothing when it
/// is not a JSON object, otherwise the optional score and notes
/// fields.
pub uninterp spec fn json_spam_fields(s: Seq<char>) -> Option<(Option<i64>, Option<Seq<char>>)>;

/// What the chat-completion body holds: nothing when the body is not
/// JSON, otherwise the trimmed message content, if any.
pub uninterp spec fn openrouter_content(s: Seq<char>) -> Option<Option<Seq<char>>>;

/// The view of the exec-level field pair, for stating what the
/// content wrapper returned.
pub open spec fn fields_view(r: Option<(Option<i64>, Option<String>)>) -> Option<
    (Option<i64>, Option<Seq<char>>),
> {
    match r {
        None => None,
        Some((sc, notes)) => Some(
            (
                sc,
                match notes {
                    None => None,
                    Some(n) => Some(n@),
                },
            ),
        ),
    }
}

/// Relies on serde_json::from_str and Value::{is_object, get, as_i64,
/// as_str}: the content string parses to a JSON object or it does
/// not, and the two fields are read off it; the result depends on the
/// string alone.
#[verifier::external_body]
fn parse_spam_json(s: &str) -> (r: Option<(Option<i64>, Option<String>)>)
    ensures
        fields_view(r) == json_spam_fields(s@),
{
    match serde_json::from_str::<serde_json::Value>(s) {
        Ok(v) if v.is_object() => Some(
            (
                v.get("spam_score").and_then(|x| x.as_i64()),
                v.get("notes").and_then(|x| x.as_str()).map(|x| x.to_string()),
            ),
        ),
        _ => None,
    }
}

/// Relies on serde_json::from_str and Value::{get, as_str}: walks the
/// chat-completion body to choices[0].message.content; the result
/// depends on the body alone.
#[verifier::external_body]
fn extract_content(body: &str) -> (r: Option<Option<String>>)
    ensures
        match r {
            None => openrouter_content(body@) is None,
            Some(None) => openrouter_content(body@) == Some(Option::<Seq<char>>::None),
            Some(Some(c)) => openrouter_content(body@) == Some(Some(c@)),
        },
{
    let parsed: serde_json::Value = match serde_json::from_str(body) {
        Ok(v) => v,
        Err(_) => {
            return None;
        },
    };
    let content = parsed
        .get("choices")
        .and_then(|c| c.get(0))
        .and_then(|c| c.get("message"))
        .and_then(|m| m.get("content"))
        .and_then(|c| c.as_str())
        .map(|s| s.trim().to_string());
    Some(content)
}

/// A raw score clamped into the score range.
pub open spec fn clamp_score(v: int) -> int {
    if v < 0 {
        0
    } else if v > 100 {
        100
    } else {
        v
    }
}

/// The classification a parsed field pair yields: nothing for
/// unusable content, otherwise the clamped score — zero when the
/// field is missing — and the notes, empty when missing.
pub open spec fn reply_spec(fields: Option<(Option<i64>, Option<Seq<char>>)>) -> Option<
    (int, Seq<char>),
> {
    match fields {
        None => None,
        Some((sc, notes)) => Some(
            (
                clamp_score(
                    match sc {
                        None => 0,
                        Some(v) => v as int,
                    },
                ),
                match notes {
                    None => Seq::<char>::empty(),
                    Some(n) => n,
                },
            ),
        ),
    }
}

/// Whether a classification agrees with a spec-level reply.
pub open spec fn matches_reply(r: Option<LlmSpamResult>, spec_reply: Option<(int, Seq<char>)>) -> bool {
    match spec_reply {
        None => r is None,
        Some((score, notes)) => match r {
            Some(l) => l.spam_score == score && l.notes@ == notes,
            None => false,
        },
    }
}

/// Turns the parsed field pair into a classification: score clamping
/// and defaulting exactly as [`reply_spec`] says, for every value the
/// parser can hand back.
pub fn classification_of_fields(fields: Option<(Option<i64>, Option<String>)>) -> (r: Option<
    LlmSpamResult,
>)
    ensures
        matches_reply(r, reply_spec(fields_view(fields))),
{
    match fields {
        None => None,
        Some((sc, notes)) => {
            let raw: i64 = match sc {
                None => 0,
                Some(v) => v,
            };
            let score: u8 = if raw < 0 {
                0
            } else if raw > 100 {
                100
            } else {
                raw as u8
            };
            let n: String = match notes {
                None => String::new(),
                Some(n) => n,
            };
            Some(LlmSpamResult { spam_score: score, notes: n })
        },
    }
}

/// Parses the classifier's message content. Content that is not a
/// JSON object is an unusable reply; a missing score means zero and
/// the score is clamped into range.
pub fn parse_llm_reply(content: &str) -> (r: Option<LlmSpamResult>)
    ensures
        matches_reply(r, reply_spec(json_spam_fields(content@))),
{
    classification_of_fields(parse_spam_json(content))
}

/// The classification a whole chat-completion body yields: nothing
/// when the body is not JSON — the gateway failed; the default
/// classification when the body carries no message content; otherwise
/// whatever the content parses to.
pub open spec fn body_reply_spec(c: Option<Option<Seq<char>>>) -> Option<(int, Seq<char>)> {
    match c {
        None => None,
        Some(None) => Some((0int, Seq::<char>::empty())),
        Some(Some(content)) => reply_spec(json_spam_fields(content)),
    }
}

/// Interprets the gateway's whole reply body. A body that is not
/// JSON, or whose message content is not a JSON object, yields
/// nothing: classification unavailable. A JSON body without message
/// content counts as an empty reply object and yields the defaults.
pub fn interpret_reply_body(body: &str) -> (r: Option<LlmSpamResult>)
    ensures
        matches_reply(r, body_reply_spec(openrouter_content(body@))),
{
    match extract_content(body) {
        None => None,
        Some(None) => Some(LlmSpamResult { spam_score: 0, notes: String::new() }),
        Some(Some(content)) => parse_llm_reply(content.as_str()),
    }
}

/// The outcome of one classification attempt as the engine sees it:
/// the gateway failed, or it scored the message.
pub enum ClassifyOutcome {
    Unavailable,
    Scored(LlmSpamResult),
}

} // verus!
