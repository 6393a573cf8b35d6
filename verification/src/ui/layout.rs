//! Whether the settings window's sidebar docks beside the content or
//! overlays it, and whether it is open.

use vstd::prelude::*;

verus! {

/// Windows narrower than this overlay their sidebar.
pub const SIDEBAR_OVERLAY_BREAKPOINT: u32 = 1_100;

#[derive(Clone, Copy, Debug, PartialEq, Eq, Structural)]
pub enum SidebarMode {
    Docked,
    Overlay,
}

#[derive(Clone, Copy, Debug, PartialEq, Eq, Structural)]
pub struct ShellLayout {
    pub sidebar_mode: SidebarMode,
}

impl ShellLayout {
    /// The layout of a window `width` pixels wide.
    pub fn from_width(width: u32) -> (layout: Self)
        ensures
            layout.sidebar_mode == if width < SIDEBAR_OVERLAY_BREAKPOINT {
                SidebarMode::Overlay
            } else {
                SidebarMode::Docked
            },
    {
        let sidebar_mode = if width < SIDEBAR_OVERLAY_BREAKPOINT {
            SidebarMode::Overlay
        } else {
            SidebarMode::Docked
        };
        ShellLayout { sidebar_mode }
    }
}

/// Whether the sidebar is open after a layout pass: it keeps its state
/// while the layout stays as it was, and a change of layout opens it when
/// docked and closes it when compact.
pub fn sidebar_open_for_layout(
    currently_open: bool,
    previous_compact_layout: Option<bool>,
    compact_layout: bool,
) -> (open: bool)
    ensures
        open == if previous_compact_layout == Some(compact_layout) {
            currently_open
        } else {
            !compact_layout
        },
{
    match previous_compact_layout {
        Some(previous) => {
            if previous == compact_layout {
                currently_open
            } else {
                !compact_layout
            }
        },
        None => !compact_layout,
    }
}

} // verus!
