use gettype::output::{plan_output, text_to_restore, OutputPlan};
use gettype::recorder::{current_generation, Generations, Recorder};

#[test]
fn stale_generation_is_skipped() {
    let mut g = Generations::new();
    let mut r = Recorder::new();
    r.commit_start(&mut g, 0, 16_000);
    let action = current_generation(&g);
    r.cancel(&mut g);
    assert_eq!(plan_output(&g, action, true, true), OutputPlan::Skip);
    assert_eq!(plan_output(&g, action, false, true), OutputPlan::Skip);
}

#[test]
fn settings_choose_the_output() {
    let g = Generations::new();
    assert_eq!(plan_output(&g, 0, false, true), OutputPlan::CopyOnly);
    assert_eq!(plan_output(&g, 0, false, false), OutputPlan::Nothing);
    assert_eq!(plan_output(&g, 0, true, true), OutputPlan::Paste { restore_previous: false });
    assert_eq!(plan_output(&g, 0, true, false), OutputPlan::Paste { restore_previous: true });
}

#[test]
fn restore_previous_clipboard() {
    assert_eq!(text_to_restore(true, Some("old".to_string())), Some("old".to_string()));
    assert_eq!(text_to_restore(true, None), None);
    assert_eq!(text_to_restore(false, Some("old".to_string())), None);
}
