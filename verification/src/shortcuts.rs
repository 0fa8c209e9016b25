//! Global shortcut handling: what a key event does given the recording state.
use crate::text::str_eq;
use vstd::prelude::*;

verus! {

/// What the application does for a shortcut event.
#[derive(Clone, Copy, Debug, PartialEq, Eq, Structural)]
pub enum ShortcutCommand {
    /// Start recording (the handle of the start is kept so a stop can await it).
    StartCapture,
    /// Await any pending start, stop recording and insert the text.
    StopAndPaste,
    Nothing,
}

/// The command for `action` on a key press (`pressed`) or release, when a recording is
/// `active` or a start is `pending`. Push-to-talk starts on press and stops on release;
/// toggle starts when idle and stops otherwise; stop-dictation stops when there is
/// something to stop. Toggle and stop ignore releases.
pub open spec fn shortcut_command_spec(action: Seq<char>, pressed: bool, active: bool, pending: bool) -> ShortcutCommand {
    if action == "push_to_talk"@ {
        if pressed {
            ShortcutCommand::StartCapture
        } else {
            ShortcutCommand::StopAndPaste
        }
    } else if action == "toggle_open_mic"@ && pressed {
        if active || pending {
            ShortcutCommand::StopAndPaste
        } else {
            ShortcutCommand::StartCapture
        }
    } else if action == "stop_dictation"@ && pressed && (active || pending) {
        ShortcutCommand::StopAndPaste
    } else {
        ShortcutCommand::Nothing
    }
}

pub fn shortcut_command(action: &str, pressed: bool, active: bool, pending: bool) -> (r: ShortcutCommand)
    ensures
        r == shortcut_command_spec(action@, pressed, active, pending),
{
    if str_eq(action, "push_to_talk") {
        if pressed {
            ShortcutCommand::StartCapture
        } else {
            ShortcutCommand::StopAndPaste
        }
    } else if str_eq(action, "toggle_open_mic") && pressed {
        if active || pending {
            ShortcutCommand::StopAndPaste
        } else {
            ShortcutCommand::StartCapture
        }
    } else if str_eq(action, "stop_dictation") && pressed && (active || pending) {
        ShortcutCommand::StopAndPaste
    } else {
        ShortcutCommand::Nothing
    }
}

/// Status after registering shortcuts, by which actions have a binding.
pub fn shortcuts_ready_message(has_ptt: bool, has_toggle: bool) -> (r: &'static str)
    ensures
        r@ == if has_ptt && has_toggle {
            "Shortcuts ready \u{2014} hold PTT or use toggle open mic (engine must be running)."@
        } else if has_ptt {
            "Shortcuts ready \u{2014} hold push-to-talk when the engine is running."@
        } else if has_toggle {
            "Shortcuts ready \u{2014} toggle open mic when the engine is running."@
        } else {
            "Shortcuts registered."@
        },
{
    if has_ptt && has_toggle {
        "Shortcuts ready \u{2014} hold PTT or use toggle open mic (engine must be running)."
    } else if has_ptt {
        "Shortcuts ready \u{2014} hold push-to-talk when the engine is running."
    } else if has_toggle {
        "Shortcuts ready \u{2014} toggle open mic when the engine is running."
    } else {
        "Shortcuts registered."
    }
}

/// Whether some bound action is `action`.
pub fn has_action(actions: &[String], action: &str) -> (r: bool)
    ensures
        r == exists|i: int| 0 <= i < actions@.len() && actions@[i]@ == action@,
{
    for i in 0..actions.len()
        invariant
            forall|k: int| 0 <= k < i ==> actions@[k]@ != action@,
    {
        if str_eq(actions[i].as_str(), action) {
            return true;
        }
    }
    false
}

/// Keybinds whose shortcut, once trimmed, is not blank (the ones that get registered).
pub fn bindable_shortcuts(shortcuts: &[String]) -> (r: Vec<usize>)
    ensures
        forall|k: int| 0 <= k < r@.len() ==> r@[k] < shortcuts@.len() && crate::text::trim(
            shortcuts@[r@[k] as int]@,
        ).len() > 0,
        forall|k: int, m: int| 0 <= k < m < r@.len() ==> r@[k] < r@[m],
        forall|i: int|
            0 <= i < shortcuts@.len() && crate::text::trim(shortcuts@[i]@).len() > 0 ==> r@.contains(
                i as usize,
            ),
{
    let mut out: Vec<usize> = Vec::new();
    for i in 0..shortcuts.len()
        invariant
            forall|k: int| 0 <= k < out@.len() ==> out@[k] < i && crate::text::trim(
                shortcuts@[out@[k] as int]@,
            ).len() > 0,
            forall|k: int, m: int| 0 <= k < m < out@.len() ==> out@[k] < out@[m],
            forall|j: int|
                0 <= j < i && crate::text::trim(shortcuts@[j]@).len() > 0 ==> out@.contains(
                    j as usize,
                ),
    {
        if !crate::text::is_blank(shortcuts[i].as_str()) {
            let ghost before = out@;
            out.push(i);
            assert forall|j: int|
                0 <= j < i + 1 && crate::text::trim(shortcuts@[j]@).len() > 0 implies out@.contains(
                j as usize,
            ) by {
                if j < i {
                    let m = choose|m: int| 0 <= m < before.len() && before[m] == j as usize;
                    assert(out@[m] == j as usize);
                } else {
                    assert(out@[out@.len() - 1] == i);
                }
            }
        }
    }
    out
}

/// Status after registering shortcuts: without any bound shortcut the user is sent to
/// Settings; otherwise the message for the bound actions.
pub fn shortcuts_status(any_bound: bool, has_ptt: bool, has_toggle: bool) -> (r: &'static str)
    ensures
        !any_bound ==> r@ == "No keybinds found \u{2014} open Settings and save keybinds."@,
        any_bound ==> r@ == if has_ptt && has_toggle {
            "Shortcuts ready \u{2014} hold PTT or use toggle open mic (engine must be running)."@
        } else if has_ptt {
            "Shortcuts ready \u{2014} hold push-to-talk when the engine is running."@
        } else if has_toggle {
            "Shortcuts ready \u{2014} toggle open mic when the engine is running."@
        } else {
            "Shortcuts registered."@
        },
{
    if !any_bound {
        "No keybinds found \u{2014} open Settings and save keybinds."
    } else {
        shortcuts_ready_message(has_ptt, has_toggle)
    }
}

} // verus!

