//! Delivering a finished transcript: clipboard and/or simulated ⌘V paste, with the
//! previous clipboard restored after a paste when the user did not ask for a copy.

use vstd::prelude::*;
use crate::recorder::{Generations, is_stale, stale};

verus! {

/// What to do with a transcript.
#[derive(Debug, Clone, Copy, PartialEq, Eq, Structural)]
pub enum OutputPlan {
    /// The action was cancelled or superseded: neither clipboard nor paste is touched.
    Skip,
    /// Auto-paste and copy are both off.
    Nothing,
    /// Auto-paste off, copy on: the text goes to the clipboard only.
    CopyOnly,
    /// Put the text on the clipboard, paste it, and afterwards put the previous
    /// clipboard content back when `restore_previous`.
    Paste { restore_previous: bool },
}

pub open spec fn output_plan(
    g: Generations,
    generation: u64,
    auto_paste: bool,
    copy_clipboard: bool,
) -> OutputPlan {
    if stale(g, generation) {
        OutputPlan::Skip
    } else if !auto_paste {
        if copy_clipboard {
            OutputPlan::CopyOnly
        } else {
            OutputPlan::Nothing
        }
    } else {
        OutputPlan::Paste { restore_previous: !copy_clipboard }
    }
}

/// The plan for the transcript of action `generation` under the current generations
/// and the auto-paste / copy settings. It is checked on entry and again right before
/// the clipboard is touched, since a cancel can come in between.
pub fn plan_output(g: &Generations, generation: u64, auto_paste: bool, copy_clipboard: bool) -> (r:
    OutputPlan)
    ensures
        r == output_plan(*g, generation, auto_paste, copy_clipboard),
{
    if is_stale(g, generation) {
        OutputPlan::Skip
    } else if !auto_paste {
        if copy_clipboard {
            OutputPlan::CopyOnly
        } else {
            OutputPlan::Nothing
        }
    } else {
        OutputPlan::Paste { restore_previous: !copy_clipboard }
    }
}

/// What goes back on the clipboard after a paste: the previous text, when it is to
/// be restored and there was one.
pub fn text_to_restore(restore_previous: bool, previous: Option<String>) -> (r: Option<String>)
    ensures
        r == (if restore_previous {
            previous
        } else {
            None
        }),
{
    if restore_previous {
        previous
    } else {
        None
    }
}

/// A cancelled (stale) action never reaches the clipboard or the paste.
pub proof fn law_stale_output_is_skipped(
    g: Generations,
    generation: u64,
    auto_paste: bool,
    copy_clipboard: bool,
)
    requires
        stale(g, generation),
    ensures
        output_plan(g, generation, auto_paste, copy_clipboard) == OutputPlan::Skip,
{
}

/// After a cancel, output planned for the cancelled action is skipped.
pub proof fn law_cancelled_action_is_not_pasted(
    state: crate::recorder::RecorderState,
    g: Generations,
    auto_paste: bool,
    copy_clipboard: bool,
)
    requires
        crate::recorder::active(state, g),
    ensures
        output_plan(
            crate::recorder::cancelled(g, crate::recorder::recording(state)),
            g.action,
            auto_paste,
            copy_clipboard,
        ) == OutputPlan::Skip,
{
    crate::recorder::law_cancel_makes_action_stale(state, g);
}

/// With copy on, a paste leaves the transcript on the clipboard (nothing is restored);
/// with copy off, the previous clipboard text comes back.
pub proof fn law_paste_restores_only_without_copy(g: Generations, generation: u64, copy_clipboard: bool)
    requires
        !stale(g, generation),
    ensures
        output_plan(g, generation, true, copy_clipboard) == (OutputPlan::Paste {
            restore_previous: !copy_clipboard,
        }),
{
}

} // verus!
