use gettype::verify::{key_check_status, key_test_result, key_to_verify, saved_key_to_test, LoadedResult};

#[test]
fn only_200_is_valid() {
    assert_eq!(key_check_status(200), Ok(()));
    assert_eq!(key_check_status(204), Err("Groq error 204".to_string()));
    assert_eq!(key_check_status(401), Err("Invalid API key".to_string()));
    assert_eq!(key_check_status(429), Err("Rate limited — try again later".to_string()));
    assert_eq!(key_check_status(500), Err("Groq error 500".to_string()));
}

#[test]
fn blank_key_is_refused_before_the_call() {
    assert_eq!(key_to_verify("  "), Err("Enter an API key first".to_string()));
    assert_eq!(key_to_verify(" gsk_x "), Ok("gsk_x".to_string()));
}

#[test]
fn saved_key_test_outcomes() {
    let none = LoadedResult { ok: false, message: "No API key saved".to_string() };
    assert_eq!(saved_key_to_test(None), Err(none));
    assert_eq!(
        saved_key_to_test(Some("  ".to_string())),
        Err(LoadedResult { ok: false, message: "No API key saved".to_string() })
    );
    assert_eq!(saved_key_to_test(Some(" k ".to_string())), Ok("k".to_string()));
    assert_eq!(key_test_result(Ok(())), LoadedResult { ok: true, message: "verified".to_string() });
    assert_eq!(
        key_test_result(Err("Invalid API key".to_string())),
        LoadedResult { ok: false, message: "Invalid API key".to_string() }
    );
}
