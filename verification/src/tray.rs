//! The system tray menu: what each entry does.
use vstd::prelude::*;

use crate::text::str_eq;

verus! {

/// What a tray menu entry asks.
#[derive(Debug, Clone, Copy, PartialEq, Eq, Structural)]
pub enum TrayAction {
    /// Show the main window.
    Open,
    /// Pause synchronization.
    Pause,
    /// Resume synchronization.
    Resume,
    /// Open the sync folder.
    OpenFolder,
    /// Show the settings page.
    Settings,
    /// Nothing (quit and the status line are handled by the menu itself).
    Nothing,
}

/// The action of the tray menu entry with identifier `id`.
pub open spec fn tray_action_of(id: Seq<char>) -> TrayAction {
    if id == "open"@ {
        TrayAction::Open
    } else if id == "pause"@ {
        TrayAction::Pause
    } else if id == "resume"@ {
        TrayAction::Resume
    } else if id == "folder"@ {
        TrayAction::OpenFolder
    } else if id == "settings"@ {
        TrayAction::Settings
    } else {
        TrayAction::Nothing
    }
}

/// The action of the tray menu entry with identifier `id`.
pub fn tray_action(id: &str) -> (r: TrayAction)
    ensures
        r == tray_action_of(id@),
{
    if str_eq(id, "open") {
        TrayAction::Open
    } else if str_eq(id, "pause") {
        TrayAction::Pause
    } else if str_eq(id, "resume") {
        TrayAction::Resume
    } else if str_eq(id, "folder") {
        TrayAction::OpenFolder
    } else if str_eq(id, "settings") {
        TrayAction::Settings
    } else {
        TrayAction::Nothing
    }
}

} // verus!
