//! Title-bar hiding: the windows whose title bar is hidden, where a hidden window
//! goes, and which window the cursor hovers at its top edge.

use vstd::prelude::*;
use crate::arith::fits_i32;
use crate::snap::WinRect;

verus! {

/// The cursor within this many pixels below a window's top edge shows the controls.
pub const HOVER_THRESHOLD: i32 = 5;
/// Size of the control overlay (minimise, maximise, close).
pub const CONTROL_OVERLAY_WIDTH: i32 = 120;
pub const CONTROL_OVERLAY_HEIGHT: i32 = 24;

/// The windows whose title bar is hidden, in the order they were hidden.
#[derive(Debug)]
pub struct TitlebarHider {
    targets: Vec<isize>,
}

impl View for TitlebarHider {
    type V = Seq<isize>;

    closed spec fn view(&self) -> Seq<isize> {
        self.targets@
    }
}

impl TitlebarHider {
    /// No window hidden yet.
    pub fn new() -> (r: Self)
        ensures
            r@ == Seq::<isize>::empty(),
    {
        TitlebarHider { targets: Vec::new() }
    }

    /// Records that the title bar of window `hwnd` (raw handle) is now hidden.
    pub fn add_target(&mut self, hwnd: isize)
        ensures
            final(self)@ == old(self)@.push(hwnd),
    {
        self.targets.push(hwnd);
    }

    /// The windows whose title bar is hidden.
    pub fn targets(&self) -> (r: &Vec<isize>)
        ensures
            r@ == self@,
    {
        &self.targets
    }
}

/// The top of a window moved up by its title bar height, so that the title bar
/// leaves the screen and the content stays where it was.
pub fn hidden_titlebar_top(top: i32, titlebar_height: i32) -> (r: i32)
    requires
        fits_i32(top - titlebar_height),
    ensures
        r == top - titlebar_height,
{
    top - titlebar_height
}

/// The cursor is on the top strip of `r`.
pub open spec fn hovers(x: int, y: int, r: WinRect, threshold: int) -> bool {
    r.left <= x <= r.right && r.top <= y <= r.top + threshold
}

/// The first window (raw handle, rectangle) whose top strip the cursor is on.
pub fn hover_target(x: i32, y: i32, windows: &Vec<(isize, WinRect)>, threshold: i32) -> (r: Option<isize>)
    requires
        forall|i: int| 0 <= i < windows@.len() ==> fits_i32(#[trigger] windows@[i].1.top + threshold),
    ensures
        match r {
            Some(h) => exists|k: int|
                0 <= k < windows@.len() && #[trigger] windows@[k].0 == h && hovers(
                    x as int,
                    y as int,
                    windows@[k].1,
                    threshold as int,
                ) && forall|j: int| 0 <= j < k ==> !hovers(x as int, y as int, #[trigger] windows@[j].1, threshold as int),
            None => forall|j: int| 0 <= j < windows@.len() ==> !hovers(x as int, y as int, #[trigger] windows@[j].1, threshold as int),
        },
{
    let mut i: usize = 0;
    while i < windows.len()
        invariant
            i <= windows@.len(),
            forall|k: int| 0 <= k < windows@.len() ==> fits_i32(#[trigger] windows@[k].1.top + threshold),
            forall|j: int| 0 <= j < i ==> !hovers(x as int, y as int, #[trigger] windows@[j].1, threshold as int),
        decreases windows@.len() - i,
    {
        let (h, r) = windows[i];
        if x >= r.left && x <= r.right && y >= r.top && y <= r.top + threshold {
            assert(windows@[i as int].0 == h);
            return Some(h);
        }
        i = i + 1;
    }
    None
}

/// Where the window controls go: the top-right corner of the window, as (x, y, w, h).
pub fn control_overlay_rect(target: WinRect) -> (r: (i32, i32, i32, i32))
    requires
        fits_i32(target.right - CONTROL_OVERLAY_WIDTH),
    ensures
        r == (
            (target.right - CONTROL_OVERLAY_WIDTH) as i32,
            target.top,
            CONTROL_OVERLAY_WIDTH,
            CONTROL_OVERLAY_HEIGHT,
        ),
{
    (target.right - CONTROL_OVERLAY_WIDTH, target.top, CONTROL_OVERLAY_WIDTH, CONTROL_OVERLAY_HEIGHT)
}

} // verus!
