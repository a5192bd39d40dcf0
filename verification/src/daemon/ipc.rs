//! Requests over the daemon's socket.
use vstd::prelude::*;

use crate::state::{DaemonState, StateView};
use crate::text::same_text;

verus! {

/// A request's action.
#[derive(Debug, Clone, Copy, PartialEq, Eq, Structural)]
pub enum IpcCommand {
    /// `cycle`: look the clipboard word up in the next group.
    Cycle,
    /// `toggle`: switch clipboard monitoring on or off.
    Toggle,
    /// `toggle_focus`: switch focusing of the dictionary window on or off.
    ToggleFocus,
    /// Anything else.
    Unknown,
}

pub open spec fn command_of(action: Seq<char>) -> IpcCommand {
    if action == "cycle"@ {
        IpcCommand::Cycle
    } else if action == "toggle"@ {
        IpcCommand::Toggle
    } else if action == "toggle_focus"@ {
        IpcCommand::ToggleFocus
    } else {
        IpcCommand::Unknown
    }
}

/// The command that a request's `action` field names.
pub fn classify(action: &str) -> (r: IpcCommand)
    ensures
        r == command_of(action@),
{
    if same_text(action, "cycle") {
        IpcCommand::Cycle
    } else if same_text(action, "toggle") {
        IpcCommand::Toggle
    } else if same_text(action, "toggle_focus") {
        IpcCommand::ToggleFocus
    } else {
        IpcCommand::Unknown
    }
}

/// `"enabled"` or `"disabled"`.
pub open spec fn switch_label(on: bool) -> Seq<char> {
    if on {
        "enabled"@
    } else {
        "disabled"@
    }
}

/// The notification shown after a toggle.
pub open spec fn toggle_notice(cmd: IpcCommand, on: bool) -> Seq<char> {
    if cmd == IpcCommand::Toggle {
        " monitoring "@ + switch_label(on)
    } else {
        " GD auto-focus "@ + switch_label(on)
    }
}

/// The state after a command: `toggle` flips monitoring, `toggle_focus`
/// flips focusing; other commands change nothing.
pub open spec fn toggled(s: StateView, cmd: IpcCommand) -> StateView {
    match cmd {
        IpcCommand::Toggle => StateView { monitoring: !s.monitoring, ..s },
        IpcCommand::ToggleFocus => StateView { focus_gd: !s.focus_gd, ..s },
        _ => s,
    }
}

/// The notification after a command, if it shows one.
pub open spec fn notice_after(s: StateView, cmd: IpcCommand) -> Option<Seq<char>> {
    match cmd {
        IpcCommand::Toggle => Some(toggle_notice(cmd, s.monitoring)),
        IpcCommand::ToggleFocus => Some(toggle_notice(cmd, s.focus_gd)),
        _ => None,
    }
}

/// Applies a command's change to the state and returns the notification
/// text that a toggle shows.
pub fn apply_toggle(state: &mut DaemonState, cmd: IpcCommand) -> (r: Option<String>)
    ensures
        final(state)@ == toggled(old(state)@, cmd),
        r matches Some(m) ==> notice_after(final(state)@, cmd) == Some(m@),
        r is None ==> notice_after(final(state)@, cmd) is None,
{
    match cmd {
        IpcCommand::Toggle => {
            state.monitoring = !state.monitoring;
            let mut m = " monitoring ".to_owned();
            m.append(if state.monitoring { "enabled" } else { "disabled" });
            Some(m)
        },
        IpcCommand::ToggleFocus => {
            state.focus_gd = !state.focus_gd;
            let mut m = " GD auto-focus ".to_owned();
            m.append(if state.focus_gd { "enabled" } else { "disabled" });
            Some(m)
        },
        _ => None,
    }
}

/// Applying the same toggle twice restores the state.
pub proof fn toggle_twice_restores(s: StateView, cmd: IpcCommand)
    ensures
        toggled(toggled(s, cmd), cmd) == s,
{
}

} // verus!
