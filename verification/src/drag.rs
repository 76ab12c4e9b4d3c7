//! Drag tracking on macOS: the mouse events and the window notifications arrive
//! separately, and this state machine decides from them when the overlay is shown or
//! hidden and when the dragged window is snapped.

use vstd::prelude::*;

verus! {

/// Where a drag stands.
#[derive(Debug, Clone, Copy, PartialEq, Eq, Structural)]
pub struct DragState {
    /// The left mouse button is being dragged.
    pub dragging: bool,
    /// A window has moved or resized during the current drag.
    pub window_dragging: bool,
}

/// Something that happened.
#[derive(Debug, Clone, Copy, PartialEq, Eq, Structural)]
pub enum DragEvent {
    /// The mouse was dragged; `cursor_outside_overlay`: the cursor has left the monitor
    /// the overlay is shown on, or no overlay is shown.
    MouseDragged { cursor_outside_overlay: bool },
    /// The left button was released.
    MouseUp,
    /// A standard window moved or was resized.
    WindowChanged,
    /// The periodic check ran; `mouse_down`: the left button is still held.
    Tick { mouse_down: bool },
}

/// What to do in response.
#[derive(Debug, Clone, Copy, PartialEq, Eq, Structural)]
pub struct DragActions {
    /// Show the overlay on the monitor under the cursor.
    pub show_overlay_at_cursor: bool,
    /// Show the overlay on the monitor of the window that just started moving.
    pub show_overlay_at_window: bool,
    /// Remember the window that changed as the one to snap when the drag ends.
    pub remember_window: bool,
    /// Hide the overlay.
    pub hide_overlay: bool,
    /// Snap the remembered window (and forget it).
    pub snap_remembered: bool,
    /// Snap the window that changed, now (it changed without a drag).
    pub snap_now: bool,
}

pub open spec fn no_actions() -> DragActions {
    DragActions {
        show_overlay_at_cursor: false,
        show_overlay_at_window: false,
        remember_window: false,
        hide_overlay: false,
        snap_remembered: false,
        snap_now: false,
    }
}

/// The state after `e` and the actions it calls for.
pub open spec fn spec_step(s: DragState, e: DragEvent) -> (DragState, DragActions) {
    match e {
        DragEvent::MouseDragged { cursor_outside_overlay } => (
            DragState { dragging: true, ..s },
            DragActions { show_overlay_at_cursor: s.window_dragging && cursor_outside_overlay, ..no_actions() },
        ),
        DragEvent::MouseUp => (
            DragState { dragging: false, window_dragging: false },
            DragActions {
                hide_overlay: s.dragging,
                snap_remembered: s.dragging && s.window_dragging,
                ..no_actions()
            },
        ),
        DragEvent::WindowChanged => if s.dragging {
            (
                DragState { window_dragging: true, ..s },
                DragActions { show_overlay_at_window: !s.window_dragging, remember_window: true, ..no_actions() },
            )
        } else {
            (s, DragActions { snap_now: true, ..no_actions() })
        },
        DragEvent::Tick { mouse_down } => if s.window_dragging && !s.dragging && !mouse_down {
            (
                DragState { window_dragging: false, ..s },
                DragActions { hide_overlay: true, snap_remembered: true, ..no_actions() },
            )
        } else {
            (s, no_actions())
        },
    }
}

impl DragState {
    /// No drag in progress.
    pub fn new() -> (r: Self)
        ensures
            !r.dragging && !r.window_dragging,
    {
        DragState { dragging: false, window_dragging: false }
    }

    /// Handles one event: updates the state and returns what to do.
    pub fn step(&mut self, e: DragEvent) -> (a: DragActions)
        ensures
            (*final(self), a) == spec_step(*old(self), e),
    {
        let none = DragActions {
            show_overlay_at_cursor: false,
            show_overlay_at_window: false,
            remember_window: false,
            hide_overlay: false,
            snap_remembered: false,
            snap_now: false,
        };
        match e {
            DragEvent::MouseDragged { cursor_outside_overlay } => {
                let show = self.window_dragging && cursor_outside_overlay;
                self.dragging = true;
                DragActions { show_overlay_at_cursor: show, ..none }
            },
            DragEvent::MouseUp => {
                let was_window_dragging = self.window_dragging;
                let was_dragging = self.dragging;
                self.window_dragging = false;
                self.dragging = false;
                DragActions {
                    hide_overlay: was_dragging,
                    snap_remembered: was_dragging && was_window_dragging,
                    ..none
                }
            },
            DragEvent::WindowChanged => {
                if self.dragging {
                    let first = !self.window_dragging;
                    self.window_dragging = true;
                    DragActions { show_overlay_at_window: first, remember_window: true, ..none }
                } else {
                    DragActions { snap_now: true, ..none }
                }
            },
            DragEvent::Tick { mouse_down } => {
                if self.window_dragging && !self.dragging && !mouse_down {
                    self.window_dragging = false;
                    DragActions { hide_overlay: true, snap_remembered: true, ..none }
                } else {
                    none
                }
            },
        }
    }
}

/// Adds the owner of an on-screen window to the applications to observe: windows of a
/// layer other than 0 (menus, panels) are skipped, as are missing or non-positive
/// process ids and ones already listed. `layer`/`pid` are `None` when they could not be read.
pub fn record_gui_pid(pids: &mut Vec<i32>, layer: Option<i32>, pid: Option<i32>)
    ensures
        final(pids)@ == (if (layer matches Some(l) && l != 0) || !(pid matches Some(p) && p > 0)
            || old(pids)@.contains(pid->0) {
            old(pids)@
        } else {
            old(pids)@.push(pid->0)
        }),
{
    if let Some(l) = layer {
        if l != 0 {
            return;
        }
    }
    if let Some(p) = pid {
        if p > 0 {
            let mut i: usize = 0;
            while i < pids.len()
                invariant
                    pids@ == old(pids)@,
                    !(layer matches Some(l) && l != 0),
                    pid == Some(p),
                    p > 0,
                    i <= pids@.len(),
                    forall|j: int| 0 <= j < i ==> pids@[j] != p,
                decreases pids@.len() - i,
            {
                if pids[i] == p {
                    assert(pids@[i as int] == p);
                    assert(old(pids)@.contains(p));
                    return;
                }
                i = i + 1;
            }
            assert(!old(pids)@.contains(p));
            pids.push(p);
        }
    }
}

/// The remembered window is snapped at most once: right after an event that snapped
/// it, neither a button release nor a periodic check snaps it again.
pub proof fn lemma_snap_once(s: DragState, e: DragEvent, next: DragEvent)
    requires
        spec_step(s, e).1.snap_remembered,
        next is MouseUp || next is Tick,
    ensures
        !spec_step(spec_step(s, e).0, next).1.snap_remembered,
{
}

/// After the button is released no drag is in progress, and the overlay shown during a
/// drag is hidden by that release.
pub proof fn lemma_release_ends_drag(s: DragState)
    ensures
        !spec_step(s, DragEvent::MouseUp).0.dragging,
        !spec_step(s, DragEvent::MouseUp).0.window_dragging,
        s.dragging ==> spec_step(s, DragEvent::MouseUp).1.hide_overlay,
{
}

/// During one drag the overlay is brought up for the moving window only once: a
/// second window change in the same drag does not show it again.
pub proof fn lemma_overlay_shown_once_per_drag(s: DragState)
    requires
        s.dragging,
    ensures
        !spec_step(spec_step(s, DragEvent::WindowChanged).0, DragEvent::WindowChanged).1.show_overlay_at_window,
{
}

} // verus!
