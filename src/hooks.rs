//! What the editor's hooks do about completion after a command, a mode
//! switch or a typed character.
use vstd::prelude::*;
use vstd::string::StrSliceExecFns;
use crate::trigger::CompletionEvent;

verus! {

/// Whether two texts are equal.
pub fn same_text(a: &str, b: &str) -> (r: bool)
    ensures
        r == (a@ == b@),
{
    let n = a.unicode_len();
    if n != b.unicode_len() {
        return false;
    }
    let mut i: usize = 0;
    while i < n
        invariant
            n == a@.len() == b@.len(),
            i <= n,
            forall|k: int| 0 <= k < i ==> a@[k] == b@[k],
        decreases n - i,
    {
        if a.get_char(i) != b.get_char(i) {
            return false;
        }
        i = i + 1;
    }
    assert(a@ =~= b@);
    true
}

/// What to do about completion after a command ran.
#[derive(Debug, Clone, Copy, PartialEq, Eq, Structural)]
pub enum PostCommandAction {
    Nothing,
    /// Update the open popup's filter for a deleted character.
    UpdateFilter,
    ClearCompletions,
    Send(CompletionEvent),
}

pub open spec fn is_name(command: Seq<char>, name: &str) -> bool {
    command == name@
}

/// The action after the command named `command` ran; `cursor` is the primary
/// cursor after the command.
pub open spec fn post_command_action(
    insert_mode: bool,
    popup_open: bool,
    command: Seq<char>,
    cursor: usize,
) -> PostCommandAction {
    if !insert_mode {
        PostCommandAction::Nothing
    } else if popup_open {
        if is_name(command, "delete_word_forward") || is_name(command, "delete_char_forward") || is_name(
            command,
            "completion",
        ) {
            PostCommandAction::Nothing
        } else if is_name(command, "delete_char_backward") {
            PostCommandAction::UpdateFilter
        } else {
            PostCommandAction::ClearCompletions
        }
    } else if is_name(command, "delete_char_backward") || is_name(command, "delete_word_forward") || is_name(
        command,
        "delete_char_forward",
    ) {
        PostCommandAction::Send(CompletionEvent::DeleteText { cursor })
    } else if is_name(command, "completion") || is_name(command, "insert_mode") || is_name(
        command,
        "append_mode",
    ) {
        PostCommandAction::Nothing
    } else {
        PostCommandAction::Send(CompletionEvent::Cancel)
    }
}

pub fn completion_post_command_hook(
    insert_mode: bool,
    popup_open: bool,
    command: &str,
    cursor: usize,
) -> (r: PostCommandAction)
    ensures
        r == post_command_action(insert_mode, popup_open, command@, cursor),
{
    if !insert_mode {
        return PostCommandAction::Nothing;
    }
    if popup_open {
        if same_text(command, "delete_word_forward") || same_text(command, "delete_char_forward") || same_text(
            command,
            "completion",
        ) {
            PostCommandAction::Nothing
        } else if same_text(command, "delete_char_backward") {
            PostCommandAction::UpdateFilter
        } else {
            PostCommandAction::ClearCompletions
        }
    } else if same_text(command, "delete_char_backward") || same_text(command, "delete_word_forward")
        || same_text(command, "delete_char_forward") {
        PostCommandAction::Send(CompletionEvent::DeleteText { cursor })
    } else if same_text(command, "completion") || same_text(command, "insert_mode") || same_text(
        command,
        "append_mode",
    ) {
        PostCommandAction::Nothing
    } else {
        PostCommandAction::Send(CompletionEvent::Cancel)
    }
}

/// What to do about completion when the editor changes mode.
#[derive(Debug, Clone, Copy, PartialEq, Eq, Structural)]
pub enum ModeSwitchAction {
    Nothing,
    /// Send `Cancel` to the debouncer and close any popup.
    CancelAndClear,
    /// Classify the text before the cursor (auto triggers allowed).
    Classify,
}

pub fn on_mode_switch(old_insert: bool, new_insert: bool) -> (r: ModeSwitchAction)
    ensures
        r == if old_insert {
            ModeSwitchAction::CancelAndClear
        } else if new_insert {
            ModeSwitchAction::Classify
        } else {
            ModeSwitchAction::Nothing
        },
{
    if old_insert {
        ModeSwitchAction::CancelAndClear
    } else if new_insert {
        ModeSwitchAction::Classify
    } else {
        ModeSwitchAction::Nothing
    }
}

/// What to do about completion after a character was inserted.
#[derive(Debug, Clone, Copy, PartialEq, Eq, Structural)]
pub enum InsertCharAction {
    /// Update the open popup's filter with the character.
    UpdateFilter(char),
    /// Classify the text before the cursor (auto triggers allowed).
    Classify,
}

pub fn on_insert_char(popup_open: bool, c: char) -> (r: InsertCharAction)
    ensures
        r == if popup_open {
            InsertCharAction::UpdateFilter(c)
        } else {
            InsertCharAction::Classify
        },
{
    if popup_open {
        InsertCharAction::UpdateFilter(c)
    } else {
        InsertCharAction::Classify
    }
}

} // verus!
