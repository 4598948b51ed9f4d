use gettype::settings::{
    api_key_change, loaded_settings, mask_api_key, require_api_key, ApiKeyChange, Config,
};

#[test]
fn default_config_values() {
    let c = Config::default();
    assert_eq!(c.hotkey, "Option+Space");
    assert_eq!(c.mode, "push_to_talk");
    assert!(c.auto_paste);
    assert!(c.copy_clipboard);
    assert_eq!(c.model, "whisper-large-v3-turbo");
    assert_eq!(c.language, "cs");
    assert_eq!(c.theme, "system");
    assert!(!c.ai_enabled);
    assert_eq!(c.ai_default_action, "cleanup");
    assert_eq!(c.ai_model, "llama-3.1-8b-instant");
}

#[test]
fn keychain_errors_count_as_no_key() {
    assert!(loaded_settings(Config::default(), &Ok(Some("k".to_string()))).has_api_key);
    assert!(!loaded_settings(Config::default(), &Ok(None)).has_api_key);
    assert!(!loaded_settings(Config::default(), &Err("locked".to_string())).has_api_key);
}

#[test]
fn saving_blank_key_deletes() {
    assert_eq!(api_key_change("   "), ApiKeyChange::Delete);
    assert_eq!(api_key_change(""), ApiKeyChange::Delete);
    assert_eq!(api_key_change("  gsk_abc \n"), ApiKeyChange::Store("gsk_abc".to_string()));
}

#[test]
fn masking_by_length() {
    assert_eq!(mask_api_key("abcd"), "••••");
    assert_eq!(mask_api_key("abcdef"), "••••cdef");
    assert_eq!(mask_api_key("gsk_1234567890WXYZ"), "gsk_••••WXYZ");
    assert_eq!(mask_api_key("12345678"), "gsk_••••5678");
    assert_eq!(mask_api_key(""), "••••");
}

#[test]
fn masking_counts_characters_for_length() {
    // Four two-byte characters: still a four-character key, so only the dots.
    assert_eq!(mask_api_key("éééé"), "••••");
    // Five characters: the short form with the last four.
    assert_eq!(mask_api_key("ééééé"), "••••éééé");
    // Eight characters: the long form.
    assert_eq!(mask_api_key("éééééééé"), "gsk_••••éééé");
}

#[test]
fn api_key_required_for_calls() {
    assert_eq!(require_api_key(Ok(Some("k".to_string()))), Ok("k".to_string()));
    assert_eq!(
        require_api_key(Ok(None)),
        Err("No Groq API key — add it in Settings".to_string())
    );
    assert_eq!(require_api_key(Err("denied".to_string())), Err("Keychain error: denied".to_string()));
}

#[test]
fn mask_shows_only_a_proper_suffix() {
    for key in ["", "a", "abcd", "abcde", "gsk_0123456789abcdef", "éééé", "•", "gsk_••••abcd"] {
        let m = mask_api_key(key);
        let dots = if m.starts_with("gsk_••••") { "gsk_••••" } else { "••••" };
        let tail = &m[dots.len()..];
        assert!(key.ends_with(tail));
        assert!(key.is_empty() || tail.chars().count() < key.chars().count());
    }
}
