//! Speech-to-text through Groq Whisper: the request fields, the handling of the
//! reply, and what a finished transcription hands to AI, history and output.

use vstd::prelude::*;
use crate::settings::Config;
use crate::recorder::{Generations, is_stale, stale};
use crate::text::{trim, trim_str, str_eq, decimal, decimal_string};

verus! {

/// Longest part of an error body that goes into a message.
pub const MAX_ERROR_BODY_CHARS: usize = 200;

/// The first `max_chars` characters of `body`.
pub open spec fn truncated(body: Seq<char>, max_chars: nat) -> Seq<char> {
    if body.len() <= max_chars {
        body
    } else {
        body.subrange(0, max_chars as int)
    }
}

/// Cuts a response body for a message at a character boundary.
pub fn truncate(body: &str, max_chars: usize) -> (r: String)
    ensures
        r@ == truncated(body@, max_chars as nat),
{
    let n = body.unicode_len();
    if n <= max_chars {
        return String::from_str(body);
    }
    String::from_str(body.substring_char(0, max_chars))
}

/// The UI message for a transcription request answered with the failure `status`.
pub open spec fn stt_error_text(status: u16, body: Seq<char>) -> Seq<char> {
    if status == 401 {
        "Invalid API key"@
    } else if status == 429 {
        "Rate limited — try again"@
    } else {
        "Groq error "@ + decimal(status as nat) + ": "@ + truncated(body, MAX_ERROR_BODY_CHARS as nat)
    }
}

/// The message for a failed transcription request; the body shows in it only for
/// statuses other than 401 and 429, cut to `MAX_ERROR_BODY_CHARS` characters.
pub fn stt_error_message(status: u16, body: &str) -> (r: String)
    ensures
        r@ == stt_error_text(status, body@),
{
    if status == 401 {
        String::from_str("Invalid API key")
    } else if status == 429 {
        String::from_str("Rate limited — try again")
    } else {
        let mut m = String::from_str("Groq error ");
        let code = decimal_string(status as u128);
        m.append(code.as_str());
        m.append(": ");
        let cut = truncate(body, MAX_ERROR_BODY_CHARS);
        m.append(cut.as_str());
        m
    }
}

/// The UI message for a failed transcription request, `None` on success.
pub fn stt_status_error(status: u16, body: &str) -> (r: Option<String>)
    ensures
        crate::llm::is_success(status) ==> r is None,
        !crate::llm::is_success(status) ==> (r matches Some(m) && m@ == stt_error_text(
            status,
            body@,
        )),
{
    if crate::llm::is_success_status(status) {
        None
    } else {
        Some(stt_error_message(status, body))
    }
}

/// The transcript (`text` of the reply) trimmed; missing or blank is an error.
pub fn transcription_text(text: Option<&str>) -> (r: Result<String, String>)
    ensures
        r matches Ok(t) ==> (text matches Some(c) && t@ == trim(c@) && t@.len() > 0),
        r is Err <==> (text matches Some(c) ==> trim(c@).len() == 0),
        r matches Err(m) ==> m@ == "Empty transcription"@,
{
    match text {
        Some(c) => {
            let t = trim_str(c);
            if t.unicode_len() == 0 {
                Err(String::from_str("Empty transcription"))
            } else {
                Ok(String::from_str(t))
            }
        },
        None => Err(String::from_str("Empty transcription")),
    }
}

/// The `language` form field: the trimmed setting, left out when blank (auto-detect).
pub fn language_field(language: &str) -> (r: Option<String>)
    ensures
        trim(language@).len() == 0 ==> r is None,
        trim(language@).len() > 0 ==> (r matches Some(l) && l@ == trim(language@)),
{
    let t = trim_str(language);
    if t.unicode_len() == 0 {
        None
    } else {
        Some(String::from_str(t))
    }
}

/// AI post-processing runs when it is on, the action is not "passthrough", and there is text.
pub fn should_post_process(cfg: &Config, text: &str) -> (r: bool)
    ensures
        r == (cfg.ai_enabled && cfg.ai_default_action@ != "passthrough"@ && text@.len() > 0),
{
    cfg.ai_enabled && !str_eq(cfg.ai_default_action.as_str(), "passthrough")
        && text.unicode_len() != 0
}

/// What a finished transcription hands on.
#[derive(Debug, PartialEq, Eq)]
pub struct TranscriptOutcome {
    /// The text that is recorded and pasted.
    pub text: String,
    /// The AI action that produced `text`, when AI succeeded.
    pub ai_action: Option<String>,
    /// The raw transcript for the history, when AI succeeded and changed it.
    pub raw_text: Option<String>,
    /// The AI failure to report; the raw transcript is used instead.
    pub ai_error: Option<String>,
}

/// `r` is what a finished transcription hands on for the raw transcript `raw`, the AI
/// action `action` and the AI result `ai` (`None` when AI did not run): a failed AI
/// step falls back to the raw transcript, and the raw text is kept for the history
/// only when AI succeeded and changed it.
pub open spec fn is_outcome(
    r: TranscriptOutcome,
    raw: Seq<char>,
    action: Seq<char>,
    ai: Option<Result<String, String>>,
) -> bool {
    match ai {
        None => r.text@ == raw && r.ai_action is None && r.raw_text is None && r.ai_error is None,
        Some(Err(e)) => r.text@ == raw && r.ai_action is None && r.raw_text is None && (
        r.ai_error matches Some(m) && m@ == e@),
        Some(Ok(out)) => {
            &&& r.text@ == out@
            &&& r.ai_action matches Some(a) && a@ == action
            &&& r.ai_error is None
            &&& if out@ == raw {
                r.raw_text is None
            } else {
                r.raw_text matches Some(t) && t@ == raw
            }
        },
    }
}

/// Combines the raw transcript with the AI result (`None` when AI did not run).
/// A failed AI step falls back to the raw transcript.
pub fn transcript_outcome(raw: &str, action: &str, ai: Option<Result<String, String>>) -> (r:
    TranscriptOutcome)
    ensures
        is_outcome(r, raw@, action@, ai),
{
    match ai {
        None => TranscriptOutcome {
            text: String::from_str(raw),
            ai_action: None,
            raw_text: None,
            ai_error: None,
        },
        Some(Err(e)) => TranscriptOutcome {
            text: String::from_str(raw),
            ai_action: None,
            raw_text: None,
            ai_error: Some(e),
        },
        Some(Ok(out)) => {
            let changed = !str_eq(out.as_str(), raw);
            let raw_text = if changed {
                Some(String::from_str(raw))
            } else {
                None
            };
            TranscriptOutcome {
                text: out,
                ai_action: Some(String::from_str(action)),
                raw_text,
                ai_error: None,
            }
        },
    }
}

/// What happens once speech-to-text (and AI, when it ran) has answered for the action
/// `generation`.
#[derive(Debug, PartialEq, Eq)]
pub enum TranscriptionStep {
    /// The action was cancelled or superseded meanwhile: nothing is recorded in the
    /// history, nothing is pasted, no event is sent.
    Discard,
    /// Speech-to-text failed: the message goes to the pill.
    Fail { message: String },
    /// The outcome is recorded in the history and handed to output.
    Deliver(TranscriptOutcome),
}

/// The step after a transcription of `generation` under the current generations `g`:
/// a stale action is discarded whatever came back (Escape cancels a transcription with
/// nothing saved and nothing pasted); otherwise a speech-to-text error fails, and a
/// transcript is delivered with the AI result folded in.
pub fn after_transcription(
    g: &Generations,
    generation: u64,
    stt: Result<String, String>,
    action: &str,
    ai: Option<Result<String, String>>,
) -> (r: TranscriptionStep)
    ensures
        stale(*g, generation) ==> r == TranscriptionStep::Discard,
        !stale(*g, generation) ==> match stt {
            Err(m) => r == (TranscriptionStep::Fail { message: m }),
            Ok(t) => r matches TranscriptionStep::Deliver(o) && is_outcome(o, t@, action@, ai),
        },
{
    if is_stale(g, generation) {
        return TranscriptionStep::Discard;
    }
    match stt {
        Err(message) => TranscriptionStep::Fail { message },
        Ok(text) => TranscriptionStep::Deliver(transcript_outcome(text.as_str(), action, ai)),
    }
}

} // verus!
