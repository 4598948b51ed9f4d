use gettype::permissions::{mic_needs_prompt, mic_status_label, MicAuthorization};

#[test]
fn mic_labels() {
    assert_eq!(mic_status_label(MicAuthorization::Authorized), "granted");
    assert_eq!(mic_status_label(MicAuthorization::Denied), "denied");
    assert_eq!(mic_status_label(MicAuthorization::Restricted), "denied");
    assert_eq!(mic_status_label(MicAuthorization::NotDetermined), "not-determined");
    assert_eq!(mic_status_label(MicAuthorization::Other), "unknown");
}

#[test]
fn prompt_only_when_undecided() {
    assert!(mic_needs_prompt(MicAuthorization::NotDetermined));
    assert!(!mic_needs_prompt(MicAuthorization::Denied));
    assert!(!mic_needs_prompt(MicAuthorization::Authorized));
}
