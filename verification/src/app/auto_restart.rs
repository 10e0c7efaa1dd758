//! The notices of toggling auto-restart for the selected project.
use vstd::prelude::*;

use crate::status::ToastState;
use crate::text::owned;
use crate::toast::{toast_view, Toast};

verus! {

/// The notice after the toggle was saved: enabled, with or without the boot unit in
/// place, or disabled.
pub open spec fn auto_restart_toast_spec(name: Seq<char>, enabled: bool, unit_installed: bool) -> (
    ToastState,
    Seq<char>,
    u32,
) {
    if enabled {
        if unit_installed {
            (ToastState::Success, "Auto-restart enabled for "@ + name, 4)
        } else {
            (ToastState::Warning, "Enabled for "@ + name + "; install the boot unit once"@, 5)
        }
    } else {
        (ToastState::Info, "Auto-restart disabled for "@ + name, 4)
    }
}

pub fn auto_restart_toast(name: &str, enabled: bool, unit_installed: bool) -> (t: Toast)
    ensures
        toast_view(t) == auto_restart_toast_spec(name@, enabled, unit_installed),
{
    if enabled {
        if unit_installed {
            let mut m = owned("Auto-restart enabled for ");
            m.append(name);
            Toast { state: ToastState::Success, message: m, seconds: 4 }
        } else {
            let mut m = owned("Enabled for ");
            m.append(name);
            m.append("; install the boot unit once");
            Toast { state: ToastState::Warning, message: m, seconds: 5 }
        }
    } else {
        let mut m = owned("Auto-restart disabled for ");
        m.append(name);
        Toast { state: ToastState::Info, message: m, seconds: 4 }
    }
}

/// The notice when the toggled selection could not be saved (the toggle is undone).
pub fn auto_restart_save_failed_toast(error: &str) -> (t: Toast)
    ensures
        toast_view(t) == (ToastState::Error, "Failed to save auto-restart: "@ + error@, 5u32),
{
    let mut m = owned("Failed to save auto-restart: ");
    m.append(error);
    Toast { state: ToastState::Error, message: m, seconds: 5 }
}

} // verus!
