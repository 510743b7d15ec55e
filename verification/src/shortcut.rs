//! The global-hotkey decision.
//!
//! Pressing the hotkey toggles the main window: hide it when it is
//! visible, show it and focus it when it is not.  The application registers
//! the accelerator with its window system, asks this module what to do for
//! each event, and performs the chosen action.

use vstd::prelude::*;

verus! {

/// What the application should do to the main window after a hotkey event.
#[derive(Clone, Copy, Debug, PartialEq, Eq, Structural)]
pub enum WindowToggle {
    /// Hide the window.
    Hide,
    /// Show the window and give it focus.
    ShowAndFocus,
    /// Leave the window as it is.
    Ignore,
}

/// The accelerator the application registers for the toggle.
pub fn hotkey_accelerator() -> (r: &'static str)
    ensures
        r@ == "Alt+Space"@,
{
    "Alt+Space"
}

/// Decides the window action for one hotkey event: only a press acts, and
/// it hides a visible window and shows (and focuses) a hidden one.
pub fn hotkey_window_action(pressed: bool, visible: bool) -> (r: WindowToggle)
    ensures
        pressed && visible ==> r == WindowToggle::Hide,
        pressed && !visible ==> r == WindowToggle::ShowAndFocus,
        !pressed ==> r == WindowToggle::Ignore,
{
    if pressed {
        if visible {
            WindowToggle::Hide
        } else {
            WindowToggle::ShowAndFocus
        }
    } else {
        WindowToggle::Ignore
    }
}

} // verus!
