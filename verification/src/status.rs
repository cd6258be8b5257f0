//! What the bars around the canvas show of the editor's state.
use vstd::prelude::*;
use vstd::string::*;

use crate::types::VimMode;

verus! {

/// The mode's name in the top bar.
pub open spec fn spec_mode_label(mode: VimMode) -> Seq<char> {
    match mode {
        VimMode::Normal => "NORMAL"@,
        VimMode::Insert => "INSERT"@,
        VimMode::Visual => "VISUAL"@,
        VimMode::Command => "COMMAND"@,
    }
}

/// The mode's name in the top bar.
pub fn mode_label(mode: VimMode) -> (s: &'static str)
    ensures
        s@ == spec_mode_label(mode),
{
    match mode {
        VimMode::Normal => "NORMAL",
        VimMode::Insert => "INSERT",
        VimMode::Visual => "VISUAL",
        VimMode::Command => "COMMAND",
    }
}

/// The colour of the mode's badge: green, amber, purple or red.
pub open spec fn spec_mode_color(mode: VimMode) -> Seq<char> {
    match mode {
        VimMode::Normal => "#22c55e"@,
        VimMode::Insert => "#f59e0b"@,
        VimMode::Visual => "#a855f7"@,
        VimMode::Command => "#ef4444"@,
    }
}

/// The colour of the mode's badge.
pub fn mode_color(mode: VimMode) -> (s: &'static str)
    ensures
        s@ == spec_mode_color(mode),
{
    match mode {
        VimMode::Normal => "#22c55e",
        VimMode::Insert => "#f59e0b",
        VimMode::Visual => "#a855f7",
        VimMode::Command => "#ef4444",
    }
}

/// What the bottom bar shows of the keys typed: the command line after a
/// `:` in Command mode, else the pending key sequence.
pub open spec fn spec_buffer_display(mode: VimMode, key_buffer: Seq<char>, command_buffer: Seq<char>) -> Seq<char> {
    if mode == VimMode::Command {
        seq![':'] + command_buffer
    } else {
        key_buffer
    }
}

/// What the bottom bar shows of the keys typed.
pub fn buffer_display(mode: VimMode, key_buffer: &str, command_buffer: &str) -> (s: String)
    ensures
        s@ == spec_buffer_display(mode, key_buffer@, command_buffer@),
{
    if mode == VimMode::Command {
        let mut s = String::from_str(":");
        s.append(command_buffer);
        proof {
            reveal_strlit(":");
        }
        s
    } else {
        String::from_str(key_buffer)
    }
}

/// How many users the top bar counts: the other users' cursors and oneself.
pub fn user_count(cursors: usize) -> (n: usize)
    requires
        cursors < usize::MAX,
    ensures
        n == cursors + 1,
{
    cursors + 1
}

} // verus!
