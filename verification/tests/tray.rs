use gettype::tray::{blur_hides_window, close_hides_window, tray_click, TrayButton, TrayButtonState, TrayClick};

#[test]
fn tray_release_of_left_toggles_popover() {
    assert_eq!(tray_click(TrayButton::Left, TrayButtonState::Up), TrayClick::TogglePopover);
    assert_eq!(tray_click(TrayButton::Left, TrayButtonState::Down), TrayClick::Ignore);
}

#[test]
fn tray_release_of_right_shows_menu() {
    assert_eq!(tray_click(TrayButton::Right, TrayButtonState::Up), TrayClick::ShowMenu);
    assert_eq!(tray_click(TrayButton::Right, TrayButtonState::Down), TrayClick::Ignore);
    assert_eq!(tray_click(TrayButton::Middle, TrayButtonState::Up), TrayClick::Ignore);
}

#[test]
fn settings_and_onboarding_hide_on_close() {
    assert!(close_hides_window("settings"));
    assert!(close_hides_window("onboarding"));
    assert!(!close_hides_window("popover"));
    assert!(!close_hides_window("pill"));
}

#[test]
fn only_popover_hides_on_blur() {
    assert!(blur_hides_window("popover"));
    assert!(!blur_hides_window("settings"));
    assert!(!blur_hides_window(""));
}
