//! The colour roles of the interface.
use vstd::prelude::*;

use crate::status::Status;

verus! {

/// A colour role; the application maps each to a terminal colour.
#[derive(Clone, Copy, Debug, PartialEq, Eq, Structural)]
pub enum ThemeColor {
    Accent,
    Brand,
    Error,
    Focus,
    Muted,
    Running,
    Text,
    Transition,
}

/// The colour role of a project status.
pub open spec fn status_color_spec(status: Status) -> ThemeColor {
    match status {
        Status::Running => ThemeColor::Running,
        Status::Pulling => ThemeColor::Accent,
        Status::Starting | Status::Stopping => ThemeColor::Transition,
        Status::Error | Status::RuntimeUnavailable => ThemeColor::Error,
        Status::Stopped => ThemeColor::Text,
    }
}

pub fn status_color(status: &Status) -> (c: ThemeColor)
    ensures
        c == status_color_spec(*status),
{
    match status {
        Status::Running => ThemeColor::Running,
        Status::Pulling => ThemeColor::Accent,
        Status::Starting | Status::Stopping => ThemeColor::Transition,
        Status::Error | Status::RuntimeUnavailable => ThemeColor::Error,
        Status::Stopped => ThemeColor::Text,
    }
}

/// The border colour role of a panel.
pub fn panel_border(focused: bool) -> (c: ThemeColor)
    ensures
        c == (if focused {
            ThemeColor::Focus
        } else {
            ThemeColor::Muted
        }),
{
    if focused {
        ThemeColor::Focus
    } else {
        ThemeColor::Muted
    }
}

} // verus!
