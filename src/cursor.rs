//! Cursor mode gate: whether the pointer is captured by the window.
use vstd::prelude::*;

verus! {

/// How the window holds the pointer.
#[derive(Clone, Copy, Debug, PartialEq, Eq, Structural)]
pub enum CursorGrabMode {
    /// The pointer moves freely.
    Free,
    /// The pointer stays inside the window.
    Confined,
    /// The pointer is held in place.
    Locked,
}

/// Grab mode and visibility of the pointer.
#[derive(Clone, Copy, Debug, PartialEq, Eq, Structural)]
pub struct CursorState {
    pub grab_mode: CursorGrabMode,
    pub visible: bool,
}

/// The pointer after one frame: freed and shown while input is frozen;
/// otherwise the toggle key captures and hides a free pointer and frees and
/// shows a captured one; without the key press nothing changes.
pub open spec fn cursor_grab_spec(
    state: CursorState,
    frozen: bool,
    toggle_pressed: bool,
) -> CursorState {
    if frozen {
        CursorState { grab_mode: CursorGrabMode::Free, visible: true }
    } else if !toggle_pressed {
        state
    } else if state.grab_mode == CursorGrabMode::Free {
        CursorState { grab_mode: CursorGrabMode::Locked, visible: false }
    } else {
        CursorState { grab_mode: CursorGrabMode::Free, visible: true }
    }
}

/// Decides the pointer's mode for one frame.
pub fn cursor_grab(state: CursorState, frozen: bool, toggle_pressed: bool) -> (r: CursorState)
    ensures
        r == cursor_grab_spec(state, frozen, toggle_pressed),
{
    if frozen {
        return CursorState { grab_mode: CursorGrabMode::Free, visible: true };
    }
    if !toggle_pressed {
        return state;
    }
    match state.grab_mode {
        CursorGrabMode::Free => CursorState { grab_mode: CursorGrabMode::Locked, visible: false },
        _ => CursorState { grab_mode: CursorGrabMode::Free, visible: true },
    }
}

} // verus!
