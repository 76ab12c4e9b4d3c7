//! Capturing a window's position as a placement rule.

use vstd::prelude::*;
use crate::arith::fits_i32;
use crate::auto_place::{WS_EX_TOOLWINDOW, WS_EX_NOACTIVATE};
use crate::config::AppRule;
use crate::grid::Grid;
use crate::snap::WinRect;

verus! {

/// A window of the z-order walk is the one to capture: visible, of another process,
/// neither a tool window nor a no-activate window, and not empty when its rectangle
/// is known.
pub open spec fn spec_is_capture_candidate(visible: bool, pid: u32, my_pid: u32, ex_style: u32, rect: Option<WinRect>) -> bool {
    &&& visible
    &&& pid != my_pid
    &&& ex_style & WS_EX_TOOLWINDOW == 0
    &&& ex_style & WS_EX_NOACTIVATE == 0
    &&& match rect {
        Some(r) => r.right - r.left > 0 && r.bottom - r.top > 0,
        None => true,
    }
}

/// Whether a window met while walking the z-order from the top is the one to capture.
pub fn is_capture_candidate(visible: bool, pid: u32, my_pid: u32, ex_style: u32, rect: Option<WinRect>) -> (r: bool)
    requires
        rect matches Some(q) ==> fits_i32(q.right - q.left) && fits_i32(q.bottom - q.top),
    ensures
        r == spec_is_capture_candidate(visible, pid, my_pid, ex_style, rect),
{
    if !visible || pid == my_pid {
        return false;
    }
    if (ex_style & WS_EX_TOOLWINDOW) != 0 || (ex_style & WS_EX_NOACTIVATE) != 0 {
        return false;
    }
    match rect {
        Some(q) => {
            let w = q.right - q.left;
            let h = q.bottom - q.top;
            w > 0 && h > 0
        },
        None => true,
    }
}

/// The rule that puts the window of `exe_name` back where it is now: the cells of its
/// visible rectangle on the monitor `device_name`.
pub fn capture_rule(grid: &Grid, device_name: String, exe_name: String, rect: WinRect) -> (r: AppRule)
    requires
        grid.wf(),
        grid@.edges_ok(rect.left as int, rect.top as int, rect.right as int, rect.bottom as int),
    ensures
        r.monitor == Some(device_name),
        r.class_name is None,
        r.exe_name == Some(exe_name),
        (r.col as int, r.row as int, r.col_span as int, r.row_span as int)
            == grid@.edges_to_cell(rect.left as int, rect.top as int, rect.right as int, rect.bottom as int),
{
    let (col, row, col_span, row_span) = grid.edges_to_cell(rect.left, rect.top, rect.right, rect.bottom);
    AppRule {
        monitor: Some(device_name),
        class_name: None,
        exe_name: Some(exe_name),
        col,
        row,
        col_span,
        row_span,
    }
}

} // verus!
