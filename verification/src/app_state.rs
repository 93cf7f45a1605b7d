//! Top-level interaction state of the application: the input mode, which
//! pane holds focus, and which view is on screen.

use vstd::prelude::*;

verus! {

/// What keyboard input currently drives.
#[derive(Debug, Clone, Copy, PartialEq, Eq, Structural)]
pub enum AppMode {
    Normal,
    Input,
    TaskForm,
    Confirm,
    Settings,
}

/// Which pane holds keyboard focus.
#[derive(Debug, Clone, Copy, PartialEq, Eq, Structural)]
pub enum FocusArea {
    Sidebar,
    List,
    Detail,
}

/// Which view fills the content area.
#[derive(Debug, Clone, Copy, PartialEq, Eq, Structural)]
pub enum CurrentView {
    Inbox,
    Today,
    Upcoming,
    Anytime,
    Completed,
    Project,
    Tag,
    Review,
    GitHub,
    Toggl,
    Settings,
}

/// Focus rotates sidebar, list, detail, and back.
pub fn cycle_focus(focus: FocusArea) -> (r: FocusArea)
    ensures
        r == match focus {
            FocusArea::Sidebar => FocusArea::List,
            FocusArea::List => FocusArea::Detail,
            FocusArea::Detail => FocusArea::Sidebar,
        },
{
    match focus {
        FocusArea::Sidebar => FocusArea::List,
        FocusArea::List => FocusArea::Detail,
        FocusArea::Detail => FocusArea::Sidebar,
    }
}

/// Focus rotates the other way round.
pub fn cycle_focus_reverse(focus: FocusArea) -> (r: FocusArea)
    ensures
        r == match focus {
            FocusArea::Sidebar => FocusArea::Detail,
            FocusArea::List => FocusArea::Sidebar,
            FocusArea::Detail => FocusArea::List,
        },
        cycle_focus_roundtrip(focus, r),
{
    match focus {
        FocusArea::Sidebar => FocusArea::Detail,
        FocusArea::List => FocusArea::Sidebar,
        FocusArea::Detail => FocusArea::List,
    }
}

/// Cycling forward undoes cycling backward.
pub open spec fn cycle_focus_roundtrip(focus: FocusArea, r: FocusArea) -> bool {
    (match r {
        FocusArea::Sidebar => FocusArea::List,
        FocusArea::List => FocusArea::Detail,
        FocusArea::Detail => FocusArea::Sidebar,
    }) == focus
}

} // verus!
