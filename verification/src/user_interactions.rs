//! Reading what the user answered. The answers come in without the white
//! space around them.

use vstd::prelude::*;
use crate::text::same_text;

verus! {

/// What the user can ask for at the menu.
#[derive(Clone, Copy, Debug, PartialEq, Eq, Structural)]
pub enum UserAction {
    Install,
    Uninstall,
    ListMods,
    Exit,
}

/// The action that the menu has under `answer`.
pub open spec fn action_of(answer: Seq<char>) -> Option<UserAction> {
    if answer == "1"@ {
        Some(UserAction::Install)
    } else if answer == "2"@ {
        Some(UserAction::Uninstall)
    } else if answer == "3"@ {
        Some(UserAction::ListMods)
    } else if answer == "0"@ {
        Some(UserAction::Exit)
    } else {
        None
    }
}

/// The action that the user chose at the menu, if the answer names one.
pub fn user_action(answer: &str) -> (action: Option<UserAction>)
    ensures
        action == action_of(answer@),
{
    if same_text(answer, "1") {
        Some(UserAction::Install)
    } else if same_text(answer, "2") {
        Some(UserAction::Uninstall)
    } else if same_text(answer, "3") {
        Some(UserAction::ListMods)
    } else if same_text(answer, "0") {
        Some(UserAction::Exit)
    } else {
        None
    }
}

/// Whether `answer` says yes to a question that is agreed to unless the
/// user declines: an empty answer does, and so does the letter y, small
/// or capital.
pub open spec fn agrees(answer: Seq<char>) -> bool {
    answer.len() == 0 || answer == "y"@ || answer == "Y"@
}

/// Whether the user agreed to have the missing files installed.
pub fn wants_installation(answer: &str) -> (yes: bool)
    ensures
        yes == agrees(answer@),
{
    answer.is_empty() || same_text(answer, "y") || same_text(answer, "Y")
}

} // verus!
