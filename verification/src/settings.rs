//! Persisted settings and the Groq API key as the settings window sees it.

use vstd::prelude::*;
use crate::text::{trim, trim_str};

verus! {

/// The settings stored in config.json.
#[derive(Debug)]
pub struct Config {
    pub hotkey: String,
    /// "push_to_talk" or "toggle".
    pub mode: String,
    pub auto_paste: bool,
    pub copy_clipboard: bool,
    /// Speech model.
    pub model: String,
    pub language: String,
    /// "light" | "dark" | "system".
    pub theme: String,
    /// AI post-processing after each dictation (off by default).
    pub ai_enabled: bool,
    /// "passthrough" | "cleanup" | "summarize" | "translate_en".
    pub ai_default_action: String,
    /// Chat model for AI post-processing.
    pub ai_model: String,
}

/// The settings of a fresh install.
pub open spec fn default_config(c: Config) -> bool {
    &&& c.hotkey@ == "Option+Space"@
    &&& c.mode@ == "push_to_talk"@
    &&& c.auto_paste
    &&& c.copy_clipboard
    &&& c.model@ == "whisper-large-v3-turbo"@
    &&& c.language@ == "cs"@
    &&& c.theme@ == "system"@
    &&& !c.ai_enabled
    &&& c.ai_default_action@ == "cleanup"@
    &&& c.ai_model@ == "llama-3.1-8b-instant"@
}

impl Default for Config {
    fn default() -> (c: Self)
        ensures
            default_config(c),
    {
        Config {
            hotkey: String::from_str("Option+Space"),
            mode: String::from_str("push_to_talk"),
            auto_paste: true,
            copy_clipboard: true,
            model: String::from_str("whisper-large-v3-turbo"),
            language: String::from_str("cs"),
            theme: String::from_str("system"),
            ai_enabled: false,
            ai_default_action: String::from_str("cleanup"),
            ai_model: String::from_str("llama-3.1-8b-instant"),
        }
    }
}

impl Clone for Config {
    fn clone(&self) -> (c: Self)
        ensures
            c == *self,
    {
        Config {
            hotkey: self.hotkey.clone(),
            mode: self.mode.clone(),
            auto_paste: self.auto_paste,
            copy_clipboard: self.copy_clipboard,
            model: self.model.clone(),
            language: self.language.clone(),
            theme: self.theme.clone(),
            ai_enabled: self.ai_enabled,
            ai_default_action: self.ai_default_action.clone(),
            ai_model: self.ai_model.clone(),
        }
    }
}

/// Payload returned to the settings window on load.
#[derive(Debug)]
pub struct LoadedSettings {
    pub config: Config,
    pub has_api_key: bool,
}

/// The settings window's payload: keychain errors count as "no key".
pub fn loaded_settings(config: Config, stored_key: &Result<Option<String>, String>) -> (r:
    LoadedSettings)
    ensures
        r.config == config,
        r.has_api_key == (stored_key matches Ok(Some(_))),
{
    let has_api_key = match stored_key {
        Ok(Some(_)) => true,
        _ => false,
    };
    LoadedSettings { config, has_api_key }
}

/// What saving the API key field does to the keychain.
#[derive(Debug, PartialEq, Eq)]
pub enum ApiKeyChange {
    /// An empty (or blank) field removes the key.
    Delete,
    /// Otherwise the trimmed key is stored.
    Store(String),
}

pub fn api_key_change(key: &str) -> (r: ApiKeyChange)
    ensures
        trim(key@).len() == 0 ==> r == ApiKeyChange::Delete,
        trim(key@).len() > 0 ==> (r matches ApiKeyChange::Store(k) && k@ == trim(key@)),
{
    let t = trim_str(key);
    if t.unicode_len() == 0 {
        ApiKeyChange::Delete
    } else {
        ApiKeyChange::Store(String::from_str(t))
    }
}

/// The last (up to) four characters.
pub open spec fn last_four(s: Seq<char>) -> Seq<char> {
    if s.len() <= 4 {
        s
    } else {
        s.subrange(s.len() - 4, s.len() as int)
    }
}

/// The characters of the key that the mask shows: none for a key of up to four
/// characters, else its last four.
pub open spec fn shown_tail(key: Seq<char>) -> Seq<char> {
    if key.len() <= 4 {
        Seq::empty()
    } else {
        last_four(key)
    }
}

/// The dots in front of the shown tail: "gsk_••••" from 8 characters on, "••••" below.
pub open spec fn mask_prefix(key: Seq<char>) -> Seq<char> {
    if key.len() < 8 {
        "••••"@
    } else {
        "gsk_••••"@
    }
}

/// The masked form of a key, by its number of characters: "gsk_••••" and the last four
/// characters from 8 characters on, "••••" and the last four from 5 to 7, and "••••"
/// alone up to 4 — never the whole key.
pub open spec fn masked(key: Seq<char>) -> Seq<char> {
    mask_prefix(key) + shown_tail(key)
}

/// Masked form of the stored key for the status line and the placeholder.
pub fn mask_api_key(key: &str) -> (r: String)
    ensures
        r@ == masked(key@),
        r@ == mask_prefix(key@) + shown_tail(key@),
        shown_tail(key@) == key@.subrange(
            key@.len() - shown_tail(key@).len(),
            key@.len() as int,
        ),
        key@.len() > 0 ==> shown_tail(key@).len() < key@.len(),
{
    let n = key.unicode_len();
    proof {
        law_mask_hides_key(key@);
    }
    if n <= 4 {
        return String::from_str("••••");
    }
    let tail = key.substring_char(n - 4, n);
    if n < 8 {
        String::from_str("••••").concat(tail)
    } else {
        String::from_str("gsk_••••").concat(tail)
    }
}

/// The key for a Groq call: none stored, or a keychain failure, is an error for the UI.
pub fn require_api_key(stored: Result<Option<String>, String>) -> (r: Result<String, String>)
    ensures
        stored matches Ok(Some(k)) ==> r == Ok::<String, String>(k),
        stored matches Ok(None) ==> (r matches Err(m) && m@
            == "No Groq API key — add it in Settings"@),
        stored matches Err(e) ==> (r matches Err(m) && m@ == "Keychain error: "@ + e@),
{
    match stored {
        Ok(Some(key)) => Ok(key),
        Ok(None) => Err(String::from_str("No Groq API key — add it in Settings")),
        Err(e) => Err(String::from_str("Keychain error: ").concat(e.as_str())),
    }
}

/// The mask never shows the whole key: behind the dots it shows a proper suffix of
/// the key (nothing at all up to four characters, the last four characters from five
/// on), so at least one character of every non-empty key stays hidden.
pub proof fn law_mask_hides_key(key: Seq<char>)
    ensures
        masked(key) == mask_prefix(key) + shown_tail(key),
        mask_prefix(key) == "••••"@ || mask_prefix(key) == "gsk_••••"@,
        shown_tail(key).len() <= 4,
        shown_tail(key) == key.subrange(key.len() - shown_tail(key).len(), key.len() as int),
        key.len() > 0 ==> shown_tail(key).len() < key.len(),
{
}

} // verus!
