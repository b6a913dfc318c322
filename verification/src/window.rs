//! What the application does when its window is resized, moved or closed.

use vstd::prelude::*;

verus! {

/// Something that happens to the window.
#[derive(Debug, Clone, Copy, PartialEq, Eq, Structural)]
pub enum WindowEvent {
    Resized,
    Moved,
    CloseRequested,
    Other,
}

/// What the application does about it.
#[derive(Debug, Clone, Copy, PartialEq, Eq, Structural)]
pub enum WindowAction {
    /// Nothing.
    Ignore,
    /// Save the position and the size of the window.
    SaveState,
    /// Keep the window from closing, and send it to the tray.
    MinimizeToTray,
    /// Save the position and the size of the window, and let it close.
    SaveStateAndClose,
}

/// The time, in milliseconds, within which the state of the window is not
/// saved again.
pub const SAVE_INTERVAL_MS: u64 = 1000;

/// What the application does about an event of its window.
///
/// The state of a window that is resized or moved is saved, but not while
/// the saved state is being put back, and not within a second of the last
/// save. A window that is to close goes to the tray where the tray is
/// enabled; else its state is saved and it closes.
pub open spec fn action_for(event: WindowEvent, restoring: bool, since_last_save_ms: u64, tray_enabled: bool) -> WindowAction {
    match event {
        WindowEvent::Resized | WindowEvent::Moved => if restoring || since_last_save_ms < SAVE_INTERVAL_MS {
            WindowAction::Ignore
        } else {
            WindowAction::SaveState
        },
        WindowEvent::CloseRequested => if tray_enabled {
            WindowAction::MinimizeToTray
        } else {
            WindowAction::SaveStateAndClose
        },
        WindowEvent::Other => WindowAction::Ignore,
    }
}

/// What the application does about an event of its window, given whether
/// the saved state is being put back, the time since the state was last
/// saved, and whether the tray is enabled.
pub fn window_action(event: WindowEvent, restoring: bool, since_last_save_ms: u64, tray_enabled: bool) -> (action: WindowAction)
    ensures
        action == action_for(event, restoring, since_last_save_ms, tray_enabled),
{
    match event {
        WindowEvent::Resized | WindowEvent::Moved => {
            if restoring || since_last_save_ms < SAVE_INTERVAL_MS {
                WindowAction::Ignore
            } else {
                WindowAction::SaveState
            }
        },
        WindowEvent::CloseRequested => {
            if tray_enabled {
                WindowAction::MinimizeToTray
            } else {
                WindowAction::SaveStateAndClose
            }
        },
        WindowEvent::Other => WindowAction::Ignore,
    }
}

} // verus!
