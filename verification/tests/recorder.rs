use gettype::recorder::{
    clear_transcribing, current_generation, escape_can_be_released, is_active, is_recording,
    is_stale, is_transcribing, recorder_status, set_transcribing, shortcut_command, Generations,
    Recorder, RecorderCommand, RecorderState, RecorderStatus, StopOutcome, MIN_DURATION_MS,
};

#[test]
fn new_generations_start_idle() {
    let g = Generations::new();
    assert_eq!(current_generation(&g), 0);
    assert!(!is_transcribing(&g));
    assert!(!is_stale(&g, 0));
    assert!(is_stale(&g, 1));
}

#[test]
fn start_begins_a_new_action() {
    let mut g = Generations::new();
    let mut r = Recorder::new();
    let before = current_generation(&g);
    assert!(r.commit_start(&mut g, 1000, 48_000));
    assert!(is_recording(&r.state));
    assert!(is_stale(&g, before));
    assert_eq!(current_generation(&g), before + 1);
    // A second start while recording changes nothing.
    assert!(!r.commit_start(&mut g, 2000, 44_100));
    assert_eq!(r.state, RecorderState::Recording { started_at_ms: 1000, sample_rate: 48_000 });
    assert_eq!(current_generation(&g), before + 1);
}

#[test]
fn stop_reports_duration_and_rate() {
    let mut g = Generations::new();
    let mut r = Recorder::new();
    r.commit_start(&mut g, 1000, 48_000);
    assert_eq!(r.stop(2500), StopOutcome::Finished { duration_ms: 1500, sample_rate: 48_000 });
    assert!(!is_recording(&r.state));
    assert_eq!(r.stop(3000), StopOutcome::NotRecording);
}

#[test]
fn short_recording_is_too_short() {
    let mut g = Generations::new();
    let mut r = Recorder::new();
    r.commit_start(&mut g, 1000, 16_000);
    assert_eq!(r.stop(1000 + MIN_DURATION_MS - 1), StopOutcome::TooShort { duration_ms: 299 });
    r.commit_start(&mut g, 5000, 16_000);
    assert_eq!(
        r.stop(5000 + MIN_DURATION_MS),
        StopOutcome::Finished { duration_ms: 300, sample_rate: 16_000 }
    );
}

#[test]
fn cancel_during_recording_invalidates_action() {
    let mut g = Generations::new();
    let mut r = Recorder::new();
    r.commit_start(&mut g, 0, 16_000);
    let action = current_generation(&g);
    let out = r.cancel(&mut g);
    assert!(out.was_recording);
    assert!(!out.was_transcribing);
    assert_eq!(out.remove_file, None);
    assert!(is_stale(&g, action));
    assert!(!is_active(&r.state, &g));
}

#[test]
fn cancel_during_transcription_hands_back_the_wav() {
    let mut g = Generations::new();
    let mut r = Recorder::new();
    r.commit_start(&mut g, 0, 16_000);
    r.stop(1000);
    r.last_recording = Some("/tmp/rec-1.wav".to_string());
    let action = current_generation(&g);
    set_transcribing(&mut g, action);
    assert!(is_active(&r.state, &g));
    let out = r.cancel(&mut g);
    assert!(!out.was_recording);
    assert!(out.was_transcribing);
    assert_eq!(out.remove_file.as_deref(), Some("/tmp/rec-1.wav"));
    assert_eq!(r.last_recording, None);
    assert!(!is_transcribing(&g));
    assert!(is_stale(&g, action));
}

#[test]
fn cancel_when_idle_does_nothing() {
    let mut g = Generations::new();
    let mut r = Recorder::new();
    r.last_recording = Some("/tmp/old.wav".to_string());
    let out = r.cancel(&mut g);
    assert!(!out.was_recording && !out.was_transcribing);
    assert_eq!(out.remove_file, None);
    assert_eq!(g, Generations::new());
    assert_eq!(r.last_recording.as_deref(), Some("/tmp/old.wav"));
}

#[test]
fn only_the_owner_clears_transcribing() {
    let mut g = Generations::new();
    set_transcribing(&mut g, 3);
    clear_transcribing(&mut g, 2);
    assert!(is_transcribing(&g));
    assert_eq!(g.transcribing, 3);
    clear_transcribing(&mut g, 3);
    assert!(!is_transcribing(&g));
}

#[test]
fn status_prefers_transcribing() {
    let idle = RecorderState::Idle;
    let rec = RecorderState::Recording { started_at_ms: 0, sample_rate: 16_000 };
    let mut g = Generations::new();
    assert_eq!(recorder_status(&idle, &g), RecorderStatus::Idle);
    assert_eq!(recorder_status(&rec, &g), RecorderStatus::Recording);
    set_transcribing(&mut g, 1);
    assert_eq!(recorder_status(&rec, &g), RecorderStatus::Transcribing);
    assert_eq!(RecorderStatus::Transcribing.label(), "transcribing");
    assert_eq!(RecorderStatus::Recording.label(), "recording");
    assert_eq!(RecorderStatus::Idle.label(), "idle");
}

#[test]
fn push_to_talk_and_toggle_commands() {
    let idle = RecorderState::Idle;
    let rec = RecorderState::Recording { started_at_ms: 0, sample_rate: 16_000 };
    assert_eq!(shortcut_command(false, "push_to_talk", true, &idle), RecorderCommand::Start);
    assert_eq!(shortcut_command(false, "push_to_talk", false, &rec), RecorderCommand::Stop);
    assert_eq!(shortcut_command(false, "push_to_talk", false, &idle), RecorderCommand::Nothing);
    assert_eq!(shortcut_command(false, "toggle", true, &idle), RecorderCommand::Start);
    assert_eq!(shortcut_command(false, "toggle", true, &rec), RecorderCommand::Stop);
    assert_eq!(shortcut_command(false, "toggle", false, &rec), RecorderCommand::Nothing);
    assert_eq!(shortcut_command(true, "toggle", true, &rec), RecorderCommand::Cancel);
    assert_eq!(shortcut_command(true, "push_to_talk", false, &rec), RecorderCommand::Nothing);
}

#[test]
fn release_after_cancel_starts_nothing() {
    let mut g = Generations::new();
    let mut r = Recorder::new();
    r.commit_start(&mut g, 0, 16_000);
    r.cancel(&mut g);
    assert_eq!(shortcut_command(false, "push_to_talk", false, &r.state), RecorderCommand::Nothing);
}

#[test]
fn escape_is_released_only_when_idle() {
    let rec = RecorderState::Recording { started_at_ms: 0, sample_rate: 16_000 };
    let mut g = Generations::new();
    assert!(!escape_can_be_released(&rec, &g));
    assert!(escape_can_be_released(&RecorderState::Idle, &g));
    set_transcribing(&mut g, 5);
    assert!(!escape_can_be_released(&RecorderState::Idle, &g));
}

#[test]
fn finished_recording_is_kept_for_a_cancel() {
    let mut r = Recorder::new();
    let mut g = Generations::new();
    assert!(r.commit_start(&mut g, 1_000, 48_000));
    assert!(matches!(r.stop(2_000), StopOutcome::Finished { duration_ms: 1_000, sample_rate: 48_000 }));
    let generation = r.finish_recording(&g, "/tmp/rec-1.wav".to_string());
    assert_eq!(generation, 1);
    assert_eq!(r.last_recording, Some("/tmp/rec-1.wav".to_string()));
    assert_eq!(r.state, RecorderState::Idle);
    set_transcribing(&mut g, generation);
    let outcome = r.cancel(&mut g);
    assert_eq!(outcome.remove_file, Some("/tmp/rec-1.wav".to_string()));
    assert!(is_stale(&g, generation));
}

#[test]
fn generation_moves_only_on_start_or_cancel() {
    let mut r = Recorder::new();
    let mut g = Generations::new();
    assert!(r.commit_start(&mut g, 0, 16_000));
    assert_eq!(current_generation(&g), 1);
    assert!(!r.commit_start(&mut g, 10, 16_000));
    r.stop(500);
    set_transcribing(&mut g, 1);
    clear_transcribing(&mut g, 1);
    assert_eq!(current_generation(&g), 1);
    r.cancel(&mut g);
    assert_eq!(current_generation(&g), 1);
    set_transcribing(&mut g, 1);
    r.cancel(&mut g);
    assert_eq!(current_generation(&g), 2);
}
