use gettype::recorder::Generations;
use gettype::stt::{after_transcription, TranscriptionStep};
use gettype::llm::is_success_status;
use gettype::stt::stt_error_message;
use gettype::settings::Config;
use gettype::stt::{
    language_field, should_post_process, stt_status_error, transcript_outcome, transcription_text,
    truncate,
};

#[test]
fn truncate_counts_characters() {
    assert_eq!(truncate("ahoj", 10), "ahoj");
    assert_eq!(truncate("příliš", 3), "pří");
    assert_eq!(truncate("abc", 3), "abc");
    assert_eq!(truncate("", 0), "");
}

#[test]
fn stt_status_messages() {
    assert_eq!(stt_status_error(200, "x"), None);
    assert_eq!(stt_status_error(401, "x").as_deref(), Some("Invalid API key"));
    assert_eq!(stt_status_error(429, "x").as_deref(), Some("Rate limited — try again"));
    assert_eq!(
        stt_status_error(400, "{\"error\":\"bad\"}").as_deref(),
        Some("Groq error 400: {\"error\":\"bad\"}")
    );
    let long = "x".repeat(300);
    let msg = stt_status_error(503, &long).unwrap();
    assert_eq!(msg, format!("Groq error 503: {}", "x".repeat(200)));
}

#[test]
fn transcript_text_is_trimmed() {
    assert_eq!(transcription_text(Some("  Ahoj.  ")), Ok("Ahoj.".to_string()));
    assert_eq!(transcription_text(Some(" ")), Err("Empty transcription".to_string()));
    assert_eq!(transcription_text(None), Err("Empty transcription".to_string()));
}

#[test]
fn language_field_blank_is_auto() {
    assert_eq!(language_field(" cs "), Some("cs".to_string()));
    assert_eq!(language_field("   "), None);
}

#[test]
fn post_process_only_when_enabled() {
    let mut cfg = Config::default();
    assert!(!should_post_process(&cfg, "text"));
    cfg.ai_enabled = true;
    assert!(should_post_process(&cfg, "text"));
    assert!(!should_post_process(&cfg, ""));
    cfg.ai_default_action = "passthrough".to_string();
    assert!(!should_post_process(&cfg, "text"));
}

#[test]
fn ai_failure_falls_back_to_raw() {
    let o = transcript_outcome("ehm ahoj", "cleanup", Some(Err("Invalid API key".to_string())));
    assert_eq!(o.text, "ehm ahoj");
    assert_eq!(o.ai_action, None);
    assert_eq!(o.raw_text, None);
    assert_eq!(o.ai_error.as_deref(), Some("Invalid API key"));
}

#[test]
fn ai_success_keeps_raw_only_when_changed() {
    let o = transcript_outcome("ehm ahoj", "cleanup", Some(Ok("Ahoj.".to_string())));
    assert_eq!(o.text, "Ahoj.");
    assert_eq!(o.ai_action.as_deref(), Some("cleanup"));
    assert_eq!(o.raw_text.as_deref(), Some("ehm ahoj"));
    let same = transcript_outcome("Ahoj.", "cleanup", Some(Ok("Ahoj.".to_string())));
    assert_eq!(same.raw_text, None);
    assert_eq!(same.ai_action.as_deref(), Some("cleanup"));
    let none = transcript_outcome("Ahoj.", "cleanup", None);
    assert_eq!(none.text, "Ahoj.");
    assert_eq!(none.ai_action, None);
}

#[test]
fn stt_error_message_for_failures() {
    assert_eq!(stt_error_message(401, "x"), "Invalid API key");
    assert_eq!(stt_error_message(429, "x"), "Rate limited — try again");
    assert_eq!(stt_error_message(500, "boom"), "Groq error 500: boom");
    let long = "y".repeat(250);
    assert_eq!(stt_error_message(503, &long), format!("Groq error 503: {}", "y".repeat(200)));
}

#[test]
fn success_statuses() {
    assert!(is_success_status(200));
    assert!(is_success_status(299));
    assert!(!is_success_status(199));
    assert!(!is_success_status(300));
}

#[test]
fn stale_transcription_is_discarded() {
    let g = Generations { action: 3, transcribing: 0 };
    assert_eq!(
        after_transcription(&g, 2, Ok("hello".to_string()), "cleanup", Some(Ok("Hello.".to_string()))),
        TranscriptionStep::Discard
    );
    assert_eq!(
        after_transcription(&g, 2, Err("Invalid API key".to_string()), "cleanup", None),
        TranscriptionStep::Discard
    );
}

#[test]
fn current_transcription_fails_or_delivers() {
    let g = Generations { action: 3, transcribing: 3 };
    assert_eq!(
        after_transcription(&g, 3, Err("Empty transcription".to_string()), "cleanup", None),
        TranscriptionStep::Fail { message: "Empty transcription".to_string() }
    );
    match after_transcription(&g, 3, Ok("ehm hello".to_string()), "cleanup", Some(Ok("Hello.".to_string()))) {
        TranscriptionStep::Deliver(o) => {
            assert_eq!(o.text, "Hello.");
            assert_eq!(o.raw_text, Some("ehm hello".to_string()));
            assert_eq!(o.ai_action, Some("cleanup".to_string()));
        }
        other => panic!("expected delivery, got {other:?}"),
    }
    match after_transcription(&g, 3, Ok("hello".to_string()), "cleanup", Some(Err("Network error".to_string()))) {
        TranscriptionStep::Deliver(o) => {
            assert_eq!(o.text, "hello");
            assert_eq!(o.ai_error, Some("Network error".to_string()));
        }
        other => panic!("expected delivery, got {other:?}"),
    }
}
