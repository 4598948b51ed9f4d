//! The menu bar icon and the app's windows: which click opens what, and which
//! windows hide instead of closing. The app lives in the menu bar, so closing a
//! window never ends it.

use vstd::prelude::*;
use crate::text::str_eq;

verus! {

/// Mouse button of a click on the tray icon.
#[derive(Debug, Clone, Copy, PartialEq, Eq, Structural)]
pub enum TrayButton {
    Left,
    Right,
    Middle,
}

/// Press or release of that button.
#[derive(Debug, Clone, Copy, PartialEq, Eq, Structural)]
pub enum TrayButtonState {
    Down,
    Up,
}

/// What a click on the tray icon does.
#[derive(Debug, Clone, Copy, PartialEq, Eq, Structural)]
pub enum TrayClick {
    /// Show the popover under the icon, or hide it when it is visible.
    TogglePopover,
    /// Attach the context menu (Settings…, Quit), show it, detach it again.
    ShowMenu,
    Ignore,
}

/// Only the release counts (a press and a release would toggle twice): the left
/// button toggles the popover, the right one shows the menu.
pub fn tray_click(button: TrayButton, state: TrayButtonState) -> (r: TrayClick)
    ensures
        r == (if state == TrayButtonState::Up && button == TrayButton::Left {
            TrayClick::TogglePopover
        } else if state == TrayButtonState::Up && button == TrayButton::Right {
            TrayClick::ShowMenu
        } else {
            TrayClick::Ignore
        }),
{
    match (button, state) {
        (TrayButton::Left, TrayButtonState::Up) => TrayClick::TogglePopover,
        (TrayButton::Right, TrayButtonState::Up) => TrayClick::ShowMenu,
        _ => TrayClick::Ignore,
    }
}

/// The settings and onboarding windows only hide when they are closed (and the
/// Dock icon goes away with them); the app keeps running in the menu bar.
pub fn close_hides_window(label: &str) -> (r: bool)
    ensures
        r == (label@ == "settings"@ || label@ == "onboarding"@),
{
    str_eq(label, "settings") || str_eq(label, "onboarding")
}

/// The popover hides when it loses focus (a click anywhere else).
pub fn blur_hides_window(label: &str) -> (r: bool)
    ensures
        r == (label@ == "popover"@),
{
    str_eq(label, "popover")
}

} // verus!
