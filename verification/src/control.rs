//! The remote control surface's decision core: which action each chat
//! button or text command maps to. Sending and polling stay with the
//! caller.

use vstd::prelude::*;

verus! {

/// What a received chat command asks for.
#[derive(Debug, Clone, Copy, PartialEq, Eq, Structural)]
pub enum ChatAction {
    /// Clear the pause flag: trading resumes.
    StartBot,
    /// Set the pause flag: no further entries.
    StopBot,
    /// Render the run state.
    ShowStatus,
    /// Render balances and the open position.
    ShowPositions,
    /// Resend the control keyboard.
    ShowMenu,
    /// Anything unrecognised.
    Ignore,
}

/// The action for a button callback: `start`, `stop`, `status`,
/// `positions` or `menu`; anything else is ignored.
pub fn action_for_callback(data: &str) -> (r: ChatAction)
    ensures
        r == (if data@ == "start"@ {
            ChatAction::StartBot
        } else if data@ == "stop"@ {
            ChatAction::StopBot
        } else if data@ == "status"@ {
            ChatAction::ShowStatus
        } else if data@ == "positions"@ {
            ChatAction::ShowPositions
        } else if data@ == "menu"@ {
            ChatAction::ShowMenu
        } else {
            ChatAction::Ignore
        }),
{
    let owned = data.to_owned();
    if owned == String::from_str("start") {
        ChatAction::StartBot
    } else if owned == String::from_str("stop") {
        ChatAction::StopBot
    } else if owned == String::from_str("status") {
        ChatAction::ShowStatus
    } else if owned == String::from_str("positions") {
        ChatAction::ShowPositions
    } else if owned == String::from_str("menu") {
        ChatAction::ShowMenu
    } else {
        ChatAction::Ignore
    }
}

/// The action for a plain text command: `/start` and `/menu` both
/// resend the keyboard; anything else is ignored.
pub fn action_for_text(text: &str) -> (r: ChatAction)
    ensures
        r == (if text@ == "/start"@ || text@ == "/menu"@ {
            ChatAction::ShowMenu
        } else {
            ChatAction::Ignore
        }),
{
    let owned = text.to_owned();
    if owned == String::from_str("/start") || owned == String::from_str("/menu") {
        ChatAction::ShowMenu
    } else {
        ChatAction::Ignore
    }
}

} // verus!
