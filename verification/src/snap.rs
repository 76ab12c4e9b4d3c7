//! Snapping decisions after a drag: which edges were dragged, where the window's
//! visible rectangle goes, and how the invisible DWM frame is compensated.

use vstd::prelude::*;
use crate::arith::{abs_int, fits_i32};
use crate::grid::{Grid, GridView};

verus! {

/// `WM_SIZING` edge codes (the `WMSZ_*` values of the Win32 API).
pub const WMSZ_LEFT: u32 = 1;
pub const WMSZ_RIGHT: u32 = 2;
pub const WMSZ_TOP: u32 = 3;
pub const WMSZ_TOPLEFT: u32 = 4;
pub const WMSZ_TOPRIGHT: u32 = 5;
pub const WMSZ_BOTTOM: u32 = 6;
pub const WMSZ_BOTTOMLEFT: u32 = 7;
pub const WMSZ_BOTTOMRIGHT: u32 = 8;

/// Moves of at most this many pixels do not count as moving an edge.
pub const DRAG_THRESHOLD: i32 = 5;

/// A screen rectangle by its edges (right and bottom exclusive), as `RECT` in Win32.
#[derive(Debug, Clone, Copy, PartialEq, Eq, Structural)]
pub struct WinRect {
    pub left: i32,
    pub top: i32,
    pub right: i32,
    pub bottom: i32,
}

/// Size of the invisible frame that DWM adds around a window (drop shadow).
#[derive(Debug, Clone, Copy, PartialEq, Eq, Structural)]
pub struct DwmBorders {
    pub left: i32,
    pub top: i32,
    pub right: i32,
    pub bottom: i32,
}

impl DwmBorders {
    /// No invisible frame.
    pub fn zero() -> (r: Self)
        ensures
            r.left == 0 && r.top == 0 && r.right == 0 && r.bottom == 0,
    {
        DwmBorders { left: 0, top: 0, right: 0, bottom: 0 }
    }

    /// The frame between a window's outer rectangle and its visible rectangle.
    pub fn between(outer: WinRect, visible: WinRect) -> (r: Self)
        requires
            fits_i32(visible.left - outer.left),
            fits_i32(visible.top - outer.top),
            fits_i32(outer.right - visible.right),
            fits_i32(outer.bottom - visible.bottom),
        ensures
            r.left == visible.left - outer.left,
            r.top == visible.top - outer.top,
            r.right == outer.right - visible.right,
            r.bottom == outer.bottom - visible.bottom,
    {
        DwmBorders {
            left: visible.left - outer.left,
            top: visible.top - outer.top,
            right: outer.right - visible.right,
            bottom: outer.bottom - visible.bottom,
        }
    }
}

/// The outer rectangle (x, y, w, h) that makes the visible rectangle (x, y, w, h)
/// once the invisible frame `b` is added around it.
pub open spec fn outer_for(x: int, y: int, w: int, h: int, b: DwmBorders) -> (int, int, int, int) {
    (x - b.left, y - b.top, w + b.left + b.right, h + b.top + b.bottom)
}

/// Computing `outer_for` does not overflow.
pub open spec fn outer_for_ok(x: int, y: int, w: int, h: int, b: DwmBorders) -> bool {
    &&& fits_i32(x - b.left)
    &&& fits_i32(y - b.top)
    &&& fits_i32(w + b.left)
    &&& fits_i32(w + b.left + b.right)
    &&& fits_i32(h + b.top)
    &&& fits_i32(h + b.top + b.bottom)
}

/// Outer rectangle for a visible rectangle (first placement pass).
pub fn outer_rect_for(x: i32, y: i32, w: i32, h: i32, b: DwmBorders) -> (r: (i32, i32, i32, i32))
    requires
        outer_for_ok(x as int, y as int, w as int, h as int, b),
    ensures
        (r.0 as int, r.1 as int, r.2 as int, r.3 as int) == outer_for(x as int, y as int, w as int, h as int, b),
{
    (x - b.left, y - b.top, w + b.left + b.right, h + b.top + b.bottom)
}

/// How far the visible rectangle measured after placement is from the one wanted:
/// (dx, dy, dw, dh).
pub open spec fn placement_error(x: int, y: int, w: int, h: int, actual: WinRect) -> (int, int, int, int) {
    (x - actual.left, y - actual.top, w - (actual.right - actual.left), h - (actual.bottom - actual.top))
}

/// Computing `placement_error` and the corrected outer rectangle does not overflow.
pub open spec fn correction_ok(x: int, y: int, w: int, h: int, b: DwmBorders, actual: WinRect) -> bool {
    let (dx, dy, dw, dh) = placement_error(x, y, w, h, actual);
    &&& fits_i32(dx)
    &&& fits_i32(dy)
    &&& fits_i32(actual.right - actual.left)
    &&& fits_i32(actual.bottom - actual.top)
    &&& fits_i32(dw)
    &&& fits_i32(dh)
    &&& outer_for_ok(x, y, w, h, b)
    &&& fits_i32(x - b.left + dx)
    &&& fits_i32(y - b.top + dy)
    &&& fits_i32(w + b.left + b.right + dw)
    &&& fits_i32(h + b.top + b.bottom + dh)
}

/// Second placement pass: when the measured visible rectangle `actual` differs from
/// the wanted one, the outer rectangle shifted by the error; `None` when it matches.
pub fn corrected_outer_rect(x: i32, y: i32, w: i32, h: i32, b: DwmBorders, actual: WinRect) -> (r: Option<
    (i32, i32, i32, i32),
>)
    requires
        correction_ok(x as int, y as int, w as int, h as int, b, actual),
    ensures
        ({
            let (dx, dy, dw, dh) = placement_error(x as int, y as int, w as int, h as int, actual);
            let (ox, oy, ow, oh) = outer_for(x as int, y as int, w as int, h as int, b);
            match r {
                None => dx == 0 && dy == 0 && dw == 0 && dh == 0,
                Some(q) => !(dx == 0 && dy == 0 && dw == 0 && dh == 0) && q.0 == ox + dx && q.1 == oy + dy
                    && q.2 == ow + dw && q.3 == oh + dh,
            }
        }),
{
    let dx = x - actual.left;
    let dy = y - actual.top;
    let dw = w - (actual.right - actual.left);
    let dh = h - (actual.bottom - actual.top);
    if dx != 0 || dy != 0 || dw != 0 || dh != 0 {
        Some((
            x - b.left + dx,
            y - b.top + dy,
            w + b.left + b.right + dw,
            h + b.top + b.bottom + dh,
        ))
    } else {
        None
    }
}

// ───────────────────────── dragged edges ─────────────────────────

pub open spec fn spec_touches_left(edge: u32) -> bool {
    edge == WMSZ_LEFT || edge == WMSZ_TOPLEFT || edge == WMSZ_BOTTOMLEFT
}

pub open spec fn spec_touches_right(edge: u32) -> bool {
    edge == WMSZ_RIGHT || edge == WMSZ_TOPRIGHT || edge == WMSZ_BOTTOMRIGHT
}

pub open spec fn spec_touches_top(edge: u32) -> bool {
    edge == WMSZ_TOP || edge == WMSZ_TOPLEFT || edge == WMSZ_TOPRIGHT
}

pub open spec fn spec_touches_bottom(edge: u32) -> bool {
    edge == WMSZ_BOTTOM || edge == WMSZ_BOTTOMLEFT || edge == WMSZ_BOTTOMRIGHT
}

/// Whether dragging `edge` moves the left side.
pub fn touches_left(edge: u32) -> (r: bool)
    ensures
        r == spec_touches_left(edge),
{
    edge == WMSZ_LEFT || edge == WMSZ_TOPLEFT || edge == WMSZ_BOTTOMLEFT
}

/// Whether dragging `edge` moves the right side.
pub fn touches_right(edge: u32) -> (r: bool)
    ensures
        r == spec_touches_right(edge),
{
    edge == WMSZ_RIGHT || edge == WMSZ_TOPRIGHT || edge == WMSZ_BOTTOMRIGHT
}

/// Whether dragging `edge` moves the top side.
pub fn touches_top(edge: u32) -> (r: bool)
    ensures
        r == spec_touches_top(edge),
{
    edge == WMSZ_TOP || edge == WMSZ_TOPLEFT || edge == WMSZ_TOPRIGHT
}

/// Whether dragging `edge` moves the bottom side.
pub fn touches_bottom(edge: u32) -> (r: bool)
    ensures
        r == spec_touches_bottom(edge),
{
    edge == WMSZ_BOTTOM || edge == WMSZ_BOTTOMLEFT || edge == WMSZ_BOTTOMRIGHT
}

/// The edge code for a set of moved sides, when it is one side or one corner.
pub open spec fn edge_code(l: bool, r: bool, t: bool, b: bool) -> Option<u32> {
    if l && !r && !t && !b {
        Some(WMSZ_LEFT)
    } else if !l && r && !t && !b {
        Some(WMSZ_RIGHT)
    } else if !l && !r && t && !b {
        Some(WMSZ_TOP)
    } else if !l && !r && !t && b {
        Some(WMSZ_BOTTOM)
    } else if l && !r && t && !b {
        Some(WMSZ_TOPLEFT)
    } else if !l && r && t && !b {
        Some(WMSZ_TOPRIGHT)
    } else if l && !r && !t && b {
        Some(WMSZ_BOTTOMLEFT)
    } else if !l && r && !t && b {
        Some(WMSZ_BOTTOMRIGHT)
    } else {
        None
    }
}

/// The edge dragged between the window rectangle before (`pre`) and after (`post`) a
/// drag: a side moved when it moved by more than the threshold. A translation (left and
/// right moved alike, top and bottom alike, and something moved) is a move: `None`, as is
/// any combination of sides that is not one side or one corner.
pub open spec fn spec_drag_edge(pre: WinRect, post: WinRect) -> Option<u32> {
    let dl = abs_int(post.left - pre.left);
    let dr = abs_int(post.right - pre.right);
    let dt = abs_int(post.top - pre.top);
    let db = abs_int(post.bottom - pre.bottom);
    let l = dl > DRAG_THRESHOLD;
    let r = dr > DRAG_THRESHOLD;
    let t = dt > DRAG_THRESHOLD;
    let b = db > DRAG_THRESHOLD;
    if abs_int(dl - dr) <= DRAG_THRESHOLD && abs_int(dt - db) <= DRAG_THRESHOLD && (l || t) {
        None
    } else {
        edge_code(l, r, t, b)
    }
}

/// A difference of two coordinates whose absolute value is an `i32`.
pub open spec fn diff_ok(a: i32, b: i32) -> bool {
    i32::MIN < a - b <= i32::MAX
}

/// Infers the dragged edge from the rectangles before and after a drag.
pub fn detect_drag_edge(pre: WinRect, post: WinRect) -> (r: Option<u32>)
    requires
        diff_ok(post.left, pre.left),
        diff_ok(post.right, pre.right),
        diff_ok(post.top, pre.top),
        diff_ok(post.bottom, pre.bottom),
    ensures
        r == spec_drag_edge(pre, post),
        r matches Some(e) ==> {
            &&& spec_touches_left(e) == (abs_int(post.left - pre.left) > DRAG_THRESHOLD)
            &&& spec_touches_right(e) == (abs_int(post.right - pre.right) > DRAG_THRESHOLD)
            &&& spec_touches_top(e) == (abs_int(post.top - pre.top) > DRAG_THRESHOLD)
            &&& spec_touches_bottom(e) == (abs_int(post.bottom - pre.bottom) > DRAG_THRESHOLD)
        },
{
    let dl = abs_i32(post.left - pre.left);
    let dr = abs_i32(post.right - pre.right);
    let dt = abs_i32(post.top - pre.top);
    let db = abs_i32(post.bottom - pre.bottom);

    let left_moved = dl > DRAG_THRESHOLD;
    let right_moved = dr > DRAG_THRESHOLD;
    let top_moved = dt > DRAG_THRESHOLD;
    let bottom_moved = db > DRAG_THRESHOLD;

    let dx = if dl >= dr { dl - dr } else { dr - dl };
    let dy = if dt >= db { dt - db } else { db - dt };
    let is_move = dx <= DRAG_THRESHOLD && dy <= DRAG_THRESHOLD && (left_moved || top_moved);
    if is_move {
        return None;
    }
    if left_moved && !right_moved && !top_moved && !bottom_moved {
        Some(WMSZ_LEFT)
    } else if !left_moved && right_moved && !top_moved && !bottom_moved {
        Some(WMSZ_RIGHT)
    } else if !left_moved && !right_moved && top_moved && !bottom_moved {
        Some(WMSZ_TOP)
    } else if !left_moved && !right_moved && !top_moved && bottom_moved {
        Some(WMSZ_BOTTOM)
    } else if left_moved && !right_moved && top_moved && !bottom_moved {
        Some(WMSZ_TOPLEFT)
    } else if !left_moved && right_moved && top_moved && !bottom_moved {
        Some(WMSZ_TOPRIGHT)
    } else if left_moved && !right_moved && !top_moved && bottom_moved {
        Some(WMSZ_BOTTOMLEFT)
    } else if !left_moved && right_moved && !top_moved && bottom_moved {
        Some(WMSZ_BOTTOMRIGHT)
    } else {
        None
    }
}

fn abs_i32(v: i32) -> (r: i32)
    requires
        v > i32::MIN,
    ensures
        r == abs_int(v as int),
{
    if v < 0 { -v } else { v }
}

/// Law: a side counts as moved when it moved by more than 5 pixels. When the change is
/// not a translation (left and right moved by amounts within 5 pixels of each other,
/// top and bottom likewise, and the left or top side moved) and the moved sides form
/// exactly one side or one corner, the detected edge is the code whose touched sides
/// are exactly the moved ones; a drag of only the top and right sides is the top-right
/// corner. No edge is detected only for a translation or for a set of moved sides that
/// is neither one side nor one corner, and any edge detected touches exactly the moved
/// sides.
pub proof fn lemma_drag_edge_is_moved_sides(pre: WinRect, post: WinRect)
    ensures
        ({
            let dl = if post.left >= pre.left { post.left - pre.left } else { pre.left - post.left };
            let dr = if post.right >= pre.right { post.right - pre.right } else { pre.right - post.right };
            let dt = if post.top >= pre.top { post.top - pre.top } else { pre.top - post.top };
            let db = if post.bottom >= pre.bottom { post.bottom - pre.bottom } else { pre.bottom - post.bottom };
            let l = dl > 5;
            let r = dr > 5;
            let t = dt > 5;
            let b = db > 5;
            let translation = -5 <= dl - dr <= 5 && -5 <= dt - db <= 5 && (l || t);
            let side_or_corner = (l || r || t || b) && !(l && r) && !(t && b);
            &&& (!translation && side_or_corner) ==> (spec_drag_edge(pre, post) matches Some(e)
                && spec_touches_left(e) == l && spec_touches_right(e) == r
                && spec_touches_top(e) == t && spec_touches_bottom(e) == b
                && 1 <= e <= 8)
            &&& (!translation && !l && r && t && !b) ==> spec_drag_edge(pre, post) == Some(WMSZ_TOPRIGHT)
            &&& spec_drag_edge(pre, post) is None ==> (translation || !side_or_corner)
            &&& spec_drag_edge(pre, post) matches Some(e) ==> (
                spec_touches_left(e) == l && spec_touches_right(e) == r
                && spec_touches_top(e) == t && spec_touches_bottom(e) == b)
        }),
{
}

// ───────────────────────── snapping the visible rectangle ─────────────────────────

/// The edges (left, top, right, bottom) after snapping: a move puts the top-left
/// corner on the nearest grid intersection and keeps the size; a resize snaps the
/// dragged sides to their nearest grid lines and keeps the others.
pub open spec fn snapped_edges(g: GridView, vis: WinRect, drag_edge: Option<u32>) -> (int, int, int, int) {
    match drag_edge {
        None => {
            let l = g.x_snap(vis.left as int);
            let t = g.y_snap(vis.top as int);
            (l, t, l + (vis.right - vis.left), t + (vis.bottom - vis.top))
        },
        Some(e) => (
            if spec_touches_left(e) { g.x_snap(vis.left as int) } else { vis.left as int },
            if spec_touches_top(e) { g.y_snap(vis.top as int) } else { vis.top as int },
            if spec_touches_right(e) { g.x_snap(vis.right as int) } else { vis.right as int },
            if spec_touches_bottom(e) { g.y_snap(vis.bottom as int) } else { vis.bottom as int },
        ),
    }
}

/// The snapped visible rectangle as (x, y, w, h); `None` when it would be empty.
pub open spec fn spec_snap_rect(g: GridView, vis: WinRect, drag_edge: Option<u32>) -> Option<(int, int, int, int)> {
    let (l, t, r, b) = snapped_edges(g, vis, drag_edge);
    if r - l <= 0 || b - t <= 0 {
        None
    } else {
        Some((l, t, r - l, b - t))
    }
}

/// Snapping `vis` for `drag_edge` does not overflow.
pub open spec fn snap_rect_ok(g: GridView, vis: WinRect, drag_edge: Option<u32>) -> bool {
    let (l, t, r, b) = snapped_edges(g, vis, drag_edge);
    &&& match drag_edge {
        None => {
            &&& g.snap_x_ok(vis.left as int)
            &&& g.snap_y_ok(vis.top as int)
            &&& fits_i32(vis.right - vis.left)
            &&& fits_i32(vis.bottom - vis.top)
        },
        Some(e) => {
            &&& spec_touches_left(e) ==> g.snap_x_ok(vis.left as int)
            &&& spec_touches_top(e) ==> g.snap_y_ok(vis.top as int)
            &&& spec_touches_right(e) ==> g.snap_x_ok(vis.right as int)
            &&& spec_touches_bottom(e) ==> g.snap_y_ok(vis.bottom as int)
        },
    }
    &&& fits_i32(r)
    &&& fits_i32(b)
    &&& fits_i32(r - l)
    &&& fits_i32(b - t)
}

/// Where the visible rectangle `vis` of a window goes after a drag that moved
/// `drag_edge` (`None`: the window was moved), as (x, y, w, h); `None` when the
/// result is empty and the window is left alone.
pub fn snap_visible_rect(grid: &Grid, vis: WinRect, drag_edge: Option<u32>) -> (r: Option<(i32, i32, i32, i32)>)
    requires
        grid.wf(),
        snap_rect_ok(grid@, vis, drag_edge),
    ensures
        match (r, spec_snap_rect(grid@, vis, drag_edge)) {
            (None, None) => true,
            (Some(q), Some(s)) => q.0 == s.0 && q.1 == s.1 && q.2 == s.2 && q.3 == s.3,
            _ => false,
        },
        r matches Some(q) ==> q.2 > 0 && q.3 > 0,
        r matches Some(q) ==> match drag_edge {
            None => q.2 == vis.right - vis.left && q.3 == vis.bottom - vis.top
                && (exists|c: int| 0 <= c <= grid@.columns && q.0 == #[trigger] grid@.x_line(c))
                && (exists|c: int| 0 <= c <= grid@.rows && q.1 == #[trigger] grid@.y_line(c)),
            Some(e) => {
                &&& !spec_touches_left(e) ==> q.0 == vis.left
                &&& !spec_touches_top(e) ==> q.1 == vis.top
                &&& !spec_touches_right(e) ==> q.0 + q.2 == vis.right
                &&& !spec_touches_bottom(e) ==> q.1 + q.3 == vis.bottom
            },
        },
{
    let (new_left, new_top, new_right, new_bottom) = match drag_edge {
        None => {
            let snapped_left = grid.snap_x(vis.left);
            let snapped_top = grid.snap_y(vis.top);
            let vis_w = vis.right - vis.left;
            let vis_h = vis.bottom - vis.top;
            (snapped_left, snapped_top, snapped_left + vis_w, snapped_top + vis_h)
        },
        Some(edge) => {
            let left = if touches_left(edge) { grid.snap_x(vis.left) } else { vis.left };
            let top = if touches_top(edge) { grid.snap_y(vis.top) } else { vis.top };
            let right = if touches_right(edge) { grid.snap_x(vis.right) } else { vis.right };
            let bottom = if touches_bottom(edge) { grid.snap_y(vis.bottom) } else { vis.bottom };
            (left, top, right, bottom)
        },
    };
    let vis_w = new_right - new_left;
    let vis_h = new_bottom - new_top;
    if vis_w <= 0 || vis_h <= 0 {
        return None;
    }
    Some((new_left, new_top, vis_w, vis_h))
}

/// Law: a snapped rectangle is never empty. The edges after snapping are: for a move,
/// the left and top sides on their nearest grid lines with width and height kept; for a
/// resize, each dragged side on its nearest grid line and every other side where it was.
/// The result is those edges as (x, y, w, h) when both width and height are positive,
/// and nothing at all when either is zero or negative.
pub proof fn lemma_snapped_rect_nonempty(g: GridView, vis: WinRect, drag_edge: Option<u32>)
    ensures
        ({
            let (l, t, r, b) = match drag_edge {
                None => {
                    let l = g.x_snap(vis.left as int);
                    let t = g.y_snap(vis.top as int);
                    (l, t, l + vis.right - vis.left, t + vis.bottom - vis.top)
                },
                Some(e) => (
                    if spec_touches_left(e) { g.x_snap(vis.left as int) } else { vis.left as int },
                    if spec_touches_top(e) { g.y_snap(vis.top as int) } else { vis.top as int },
                    if spec_touches_right(e) { g.x_snap(vis.right as int) } else { vis.right as int },
                    if spec_touches_bottom(e) { g.y_snap(vis.bottom as int) } else { vis.bottom as int },
                ),
            };
            &&& spec_snap_rect(g, vis, drag_edge) matches Some(q) ==> q.2 > 0 && q.3 > 0
            &&& (r - l > 0 && b - t > 0) ==> spec_snap_rect(g, vis, drag_edge) == Some((l, t, r - l, b - t))
            &&& (r - l <= 0 || b - t <= 0) ==> spec_snap_rect(g, vis, drag_edge) is None
        }),
{
}

} // verus!
