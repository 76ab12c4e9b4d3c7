//! Line segments of the grid overlay, in the coordinates of the overlay window.

use vstd::prelude::*;
use crate::arith::fits_i32;
use crate::grid::GridLines;

verus! {

/// A line segment from (x0, y0) to (x1, y1).
#[derive(Debug, Clone, Copy, PartialEq, Eq, Structural)]
pub struct Segment {
    pub x0: i32,
    pub y0: i32,
    pub x1: i32,
    pub y1: i32,
}

/// The vertical segment at screen x `x` across the monitor, shifted by the overlay origin.
pub open spec fn vertical_at(l: GridLines, x: int, ox: int, oy: int) -> (int, int, int, int) {
    (x - ox, l.origin_y - oy, x - ox, l.origin_y + l.height - oy)
}

/// The horizontal segment at screen y `y` across the monitor, shifted by the overlay origin.
pub open spec fn horizontal_at(l: GridLines, y: int, ox: int, oy: int) -> (int, int, int, int) {
    (l.origin_x - ox, y - oy, l.origin_x + l.width - ox, y - oy)
}

pub open spec fn seg_is(s: Segment, q: (int, int, int, int)) -> bool {
    s.x0 == q.0 && s.y0 == q.1 && s.x1 == q.2 && s.y1 == q.3
}

/// Shifting the monitor's lines by the overlay origin does not overflow.
pub open spec fn segments_ok(l: GridLines, ox: int, oy: int) -> bool {
    &&& fits_i32(l.origin_y - oy)
    &&& fits_i32(l.origin_y + l.height)
    &&& fits_i32(l.origin_y + l.height - oy)
    &&& fits_i32(l.origin_x - ox)
    &&& fits_i32(l.origin_x + l.width)
    &&& fits_i32(l.origin_x + l.width - ox)
    &&& forall|i: int| 0 <= i < l.verticals@.len() ==> fits_i32(#[trigger] l.verticals@[i] - ox)
    &&& forall|i: int| 0 <= i < l.horizontals@.len() ==> fits_i32(#[trigger] l.horizontals@[i] - oy)
}

fn vertical(l: &GridLines, x: i32, ox: i32, oy: i32) -> (s: Segment)
    requires
        fits_i32(x - ox),
        fits_i32(l.origin_y - oy),
        fits_i32(l.origin_y + l.height),
        fits_i32(l.origin_y + l.height - oy),
    ensures
        seg_is(s, vertical_at(*l, x as int, ox as int, oy as int)),
{
    Segment { x0: x - ox, y0: l.origin_y - oy, x1: x - ox, y1: l.origin_y + l.height - oy }
}

fn horizontal(l: &GridLines, y: i32, ox: i32, oy: i32) -> (s: Segment)
    requires
        fits_i32(y - oy),
        fits_i32(l.origin_x - ox),
        fits_i32(l.origin_x + l.width),
        fits_i32(l.origin_x + l.width - ox),
    ensures
        seg_is(s, horizontal_at(*l, y as int, ox as int, oy as int)),
{
    Segment { x0: l.origin_x - ox, y0: y - oy, x1: l.origin_x + l.width - ox, y1: y - oy }
}

/// The overlay segments of one monitor, with the overlay window at (`ox`, `oy`): every
/// vertical line across the monitor height, then every horizontal line across its width.
pub fn grid_segments(l: &GridLines, ox: i32, oy: i32) -> (r: Vec<Segment>)
    requires
        segments_ok(*l, ox as int, oy as int),
    ensures
        r@.len() == l.verticals@.len() + l.horizontals@.len(),
        forall|i: int| 0 <= i < l.verticals@.len() ==> seg_is(#[trigger] r@[i], vertical_at(*l, l.verticals@[i] as int, ox as int, oy as int)),
        forall|i: int| 0 <= i < l.horizontals@.len() ==> seg_is(#[trigger] r@[l.verticals@.len() + i], horizontal_at(*l, l.horizontals@[i] as int, ox as int, oy as int)),
{
    let mut r: Vec<Segment> = Vec::new();
    let mut i: usize = 0;
    while i < l.verticals.len()
        invariant
            segments_ok(*l, ox as int, oy as int),
            i <= l.verticals@.len(),
            r@.len() == i,
            forall|k: int| 0 <= k < i ==> seg_is(#[trigger] r@[k], vertical_at(*l, l.verticals@[k] as int, ox as int, oy as int)),
        decreases l.verticals@.len() - i,
    {
        let x = l.verticals[i];
        r.push(vertical(l, x, ox, oy));
        i = i + 1;
    }
    let nv = l.verticals.len();
    let mut j: usize = 0;
    while j < l.horizontals.len()
        invariant
            segments_ok(*l, ox as int, oy as int),
            nv == l.verticals@.len(),
            j <= l.horizontals@.len(),
            r@.len() == nv + j,
            forall|k: int| 0 <= k < nv ==> seg_is(#[trigger] r@[k], vertical_at(*l, l.verticals@[k] as int, ox as int, oy as int)),
            forall|k: int| 0 <= k < j ==> seg_is(#[trigger] r@[nv + k], horizontal_at(*l, l.horizontals@[k] as int, ox as int, oy as int)),
        decreases l.horizontals@.len() - j,
    {
        let y = l.horizontals[j];
        r.push(horizontal(l, y, ox, oy));
        j = j + 1;
    }
    r
}

/// The centre lines of one monitor: the vertical line `columns / 2` and the horizontal
/// line `rows / 2` (each only when that line exists).
pub fn center_segments(l: &GridLines, columns: i32, rows: i32, ox: i32, oy: i32) -> (r: Vec<Segment>)
    requires
        columns >= 0,
        rows >= 0,
        segments_ok(*l, ox as int, oy as int),
    ensures
        ({
            let mc = columns / 2;
            let mr = rows / 2;
            let has_v = mc < l.verticals@.len();
            let has_h = mr < l.horizontals@.len();
            &&& r@.len() == (if has_v { 1int } else { 0int }) + (if has_h { 1int } else { 0int })
            &&& has_v ==> seg_is(r@[0], vertical_at(*l, l.verticals@[mc as int] as int, ox as int, oy as int))
            &&& has_h ==> seg_is(r@[r@.len() - 1], horizontal_at(*l, l.horizontals@[mr as int] as int, ox as int, oy as int))
        }),
{
    let mut r: Vec<Segment> = Vec::new();
    let mid_col = (columns / 2) as usize;
    if mid_col < l.verticals.len() {
        let x = l.verticals[mid_col];
        r.push(vertical(l, x, ox, oy));
    }
    let mid_row = (rows / 2) as usize;
    if mid_row < l.horizontals.len() {
        let y = l.horizontals[mid_row];
        r.push(horizontal(l, y, ox, oy));
    }
    r
}

} // verus!
