//! What each entry of the tray menu does. Building the menu and carrying
//! out the action stay with the application.

use vstd::prelude::*;
use crate::text::str_equal;

verus! {

/// The effect of a tray menu entry.
#[derive(Debug, PartialEq, Eq, Structural)]
pub enum TrayAction {
    ShowPopup,
    HidePopup,
    /// Switch the news to English (`en`) or Korean (`ko`).
    SetLanguage { korean: bool },
    Quit,
    /// An entry that does nothing.
    Ignore,
}

/// The action for the menu entry with this id.
pub open spec fn action_for(id: Seq<char>) -> TrayAction {
    if id == "show"@ {
        TrayAction::ShowPopup
    } else if id == "hide"@ {
        TrayAction::HidePopup
    } else if id == "lang_en"@ {
        TrayAction::SetLanguage { korean: false }
    } else if id == "lang_ko"@ {
        TrayAction::SetLanguage { korean: true }
    } else if id == "quit"@ {
        TrayAction::Quit
    } else {
        TrayAction::Ignore
    }
}

/// The action for a menu entry's id.
pub fn tray_action(id: &str) -> (r: TrayAction)
    ensures
        r == action_for(id@),
{
    if str_equal(id, "show") {
        TrayAction::ShowPopup
    } else if str_equal(id, "hide") {
        TrayAction::HidePopup
    } else if str_equal(id, "lang_en") {
        TrayAction::SetLanguage { korean: false }
    } else if str_equal(id, "lang_ko") {
        TrayAction::SetLanguage { korean: true }
    } else if str_equal(id, "quit") {
        TrayAction::Quit
    } else {
        TrayAction::Ignore
    }
}

/// The language code that a language entry selects.
pub fn language_code(korean: bool) -> (r: String)
    ensures
        r@ == (if korean { "ko"@ } else { "en"@ }),
{
    if korean {
        String::from_str("ko")
    } else {
        String::from_str("en")
    }
}

} // verus!
