//! Grid geometry on one monitor, in physical pixels, with integer arithmetic only.
//! The remainder of a division is absorbed by the two edge cells of each axis,
//! so interior cells keep an equal size.

use vstd::prelude::*;
use crate::arith::{fits_i32, min_int, max_int, abs_int};
use crate::axis::{
    axis_base, axis_pad, axis_line, axis_cell, axis_index, axis_snap, axis_fits, axis_index_ok, axis_line_ok, lemma_axis_line_ok,
    axis_snap_ok, lemma_axis_parts, lemma_axis_index_range, lemma_axis_line_bounds,
    lemma_axis_cell_gap, lemma_axis_strict, lemma_axis_monotone, lemma_axis_index,
    lemma_axis_index_unique, lemma_axis_index_monotone, lemma_axis_snap_nearest, line_at,
    cell_size_at, index_at, snap_at,
};

verus! {

/// The grid of one monitor.
#[derive(Debug, Clone, Copy)]
pub struct Grid {
    /// Top-left corner of the monitor area (physical pixels).
    pub origin_x: i32,
    pub origin_y: i32,
    /// Size of the monitor area (physical pixels).
    pub width: i32,
    pub height: i32,
    /// Number of columns and rows.
    pub columns: i32,
    pub rows: i32,
    /// Remainder pixels given to the left column and the top row.
    pad_left: i32,
    pad_top: i32,
    /// Size of an interior cell.
    base_cw: i32,
    base_ch: i32,
}

/// A rectangle covered by grid cells.
#[derive(Debug, Clone, Copy)]
pub struct CellRect {
    pub x: i32,
    pub y: i32,
    pub w: i32,
    pub h: i32,
}

/// Grid lines for drawing the overlay.
#[derive(Debug, Clone)]
pub struct GridLines {
    /// x coordinates of the vertical lines (absolute).
    pub verticals: Vec<i32>,
    /// y coordinates of the horizontal lines (absolute).
    pub horizontals: Vec<i32>,
    /// Monitor area.
    pub origin_x: i32,
    pub origin_y: i32,
    pub width: i32,
    pub height: i32,
}

/// The mathematical model of a grid: the monitor area and the cell counts.
pub struct GridView {
    pub origin_x: int,
    pub origin_y: int,
    pub width: int,
    pub height: int,
    pub columns: int,
    pub rows: int,
}

impl GridView {
    /// Vertical grid line `c` (`0..=columns`, clamped).
    pub open spec fn x_line(self, c: int) -> int {
        axis_line(self.origin_x, self.width, self.columns, c)
    }

    /// Horizontal grid line `r` (`0..=rows`, clamped).
    pub open spec fn y_line(self, r: int) -> int {
        axis_line(self.origin_y, self.height, self.rows, r)
    }

    /// Width of column `c`.
    pub open spec fn x_cell(self, c: int) -> int {
        axis_cell(self.width, self.columns, c)
    }

    /// Height of row `r`.
    pub open spec fn y_cell(self, r: int) -> int {
        axis_cell(self.height, self.rows, r)
    }

    /// Column that contains `px`.
    pub open spec fn x_index(self, px: int) -> int {
        axis_index(self.origin_x, self.width, self.columns, px)
    }

    /// Row that contains `py`.
    pub open spec fn y_index(self, py: int) -> int {
        axis_index(self.origin_y, self.height, self.rows, py)
    }

    /// Vertical line that `px` snaps to.
    pub open spec fn x_snap(self, px: int) -> int {
        axis_snap(self.origin_x, self.width, self.columns, px)
    }

    /// Horizontal line that `py` snaps to.
    pub open spec fn y_snap(self, py: int) -> int {
        axis_snap(self.origin_y, self.height, self.rows, py)
    }

    /// The right edge of the monitor area is an `i32`.
    pub open spec fn x_fits(self) -> bool {
        axis_fits(self.origin_x, self.width)
    }

    /// The bottom edge of the monitor area is an `i32`.
    pub open spec fn y_fits(self) -> bool {
        axis_fits(self.origin_y, self.height)
    }

    /// Computing vertical line `c` does not overflow.
    pub open spec fn x_line_ok(self, c: int) -> bool {
        axis_line_ok(self.origin_x, self.width, self.columns, c)
    }

    /// Computing horizontal line `r` does not overflow.
    pub open spec fn y_line_ok(self, r: int) -> bool {
        axis_line_ok(self.origin_y, self.height, self.rows, r)
    }

    pub open spec fn snap_x_ok(self, px: int) -> bool {
        axis_snap_ok(self.origin_x, self.width, self.columns, px)
    }

    pub open spec fn snap_y_ok(self, py: int) -> bool {
        axis_snap_ok(self.origin_y, self.height, self.rows, py)
    }

    /// Every cell is at least one pixel wide and high.
    pub open spec fn cells_nonempty(self) -> bool {
        self.width >= self.columns && self.height >= self.rows
    }

    /// Sum of the widths of the first `k` columns.
    pub open spec fn x_cells_total(self, k: int) -> int
        decreases k,
    {
        if k <= 0 { 0 } else { self.x_cells_total(k - 1) + self.x_cell(k - 1) }
    }

    /// Sum of the heights of the first `k` rows.
    pub open spec fn y_cells_total(self, k: int) -> int
        decreases k,
    {
        if k <= 0 { 0 } else { self.y_cells_total(k - 1) + self.y_cell(k - 1) }
    }

    /// Computing the rectangle of `col_span` x `row_span` cells at (`col`, `row`)
    /// does not overflow.
    pub open spec fn cell_rect_ok(self, col: int, row: int, col_span: int, row_span: int) -> bool {
        &&& col + col_span <= u32::MAX
        &&& row + row_span <= u32::MAX
        &&& self.x_line_ok((col as i32) as int)
        &&& self.x_line_ok(((col + col_span) as i32) as int)
        &&& self.y_line_ok((row as i32) as int)
        &&& self.y_line_ok(((row + row_span) as i32) as int)
        &&& fits_i32(self.x_line(((col + col_span) as i32) as int) - self.x_line((col as i32) as int))
        &&& fits_i32(self.y_line(((row + row_span) as i32) as int) - self.y_line((row as i32) as int))
    }

    /// Turning the edges of a pixel rectangle into cells does not overflow.
    pub open spec fn edges_ok(self, left: int, top: int, right: int, bottom: int) -> bool {
        ||| axis_base(self.width, self.columns) <= 0
        ||| axis_base(self.height, self.rows) <= 0
        ||| {
            &&& self.snap_x_ok(left)
            &&& self.snap_y_ok(top)
            &&& self.snap_x_ok(right)
            &&& self.snap_y_ok(bottom)
            &&& fits_i32(self.x_snap(right) - 1)
            &&& fits_i32(self.y_snap(bottom) - 1)
        }
    }

    /// The cells (`col`, `row`, `col_span`, `row_span`) of a pixel rectangle: each edge is
    /// snapped to its nearest grid line, the top-left corner names the first cell, and the
    /// cell just inside the snapped bottom-right corner the last one. At least one cell
    /// each way. A grid with empty cells gives a single cell at the origin.
    pub open spec fn edges_to_cell(self, left: int, top: int, right: int, bottom: int) -> (int, int, int, int) {
        if axis_base(self.width, self.columns) <= 0 || axis_base(self.height, self.rows) <= 0 {
            (0, 0, 1, 1)
        } else {
            let sl = self.x_snap(left);
            let st = self.y_snap(top);
            let sr = self.x_snap(right);
            let sb = self.y_snap(bottom);
            let col = self.x_index(sl);
            let row = self.y_index(st);
            let col_end = self.x_index(max_int(sr - 1, sl));
            let row_end = self.y_index(max_int(sb - 1, st));
            (col, row, max_int(col_end - col + 1, 1), max_int(row_end - row + 1, 1))
        }
    }
}

impl View for Grid {
    type V = GridView;

    closed spec fn view(&self) -> GridView {
        GridView {
            origin_x: self.origin_x as int,
            origin_y: self.origin_y as int,
            width: self.width as int,
            height: self.height as int,
            columns: self.columns as int,
            rows: self.rows as int,
        }
    }
}

impl Grid {
    /// The derived fields agree with the public ones.
    pub closed spec fn wf(&self) -> bool {
        &&& self.columns >= 1
        &&& self.rows >= 1
        &&& self.base_cw == axis_base(self.width as int, self.columns as int)
        &&& self.pad_left == axis_pad(self.width as int, self.columns as int)
        &&& self.base_ch == axis_base(self.height as int, self.rows as int)
        &&& self.pad_top == axis_pad(self.height as int, self.rows as int)
    }

    /// Builds the grid of a monitor area split into `columns` x `rows` cells.
    pub fn new(origin_x: i32, origin_y: i32, width: i32, height: i32, columns: u32, rows: u32) -> (g: Self)
        requires
            1 <= columns <= i32::MAX,
            1 <= rows <= i32::MAX,
        ensures
            g.wf(),
            g@ == (GridView {
                origin_x: origin_x as int,
                origin_y: origin_y as int,
                width: width as int,
                height: height as int,
                columns: columns as int,
                rows: rows as int,
            }),
    {
        let cols = columns as i32;
        let rows_i = rows as i32;

        let base_cw = width / cols;
        let rem_x = width % cols;
        let pad_left = rem_x / 2;

        let base_ch = height / rows_i;
        let rem_y = height % rows_i;
        let pad_top = rem_y / 2;

        Grid {
            origin_x,
            origin_y,
            width,
            height,
            columns: cols,
            rows: rows_i,
            pad_left,
            pad_top,
            base_cw,
            base_ch,
        }
    }

    /// Width of an interior cell (the edge columns may be wider).
    pub fn cell_width(&self) -> (r: i32)
        requires
            self.wf(),
        ensures
            r == axis_base(self@.width, self@.columns),
    {
        self.base_cw
    }

    /// Height of an interior cell (the edge rows may be higher).
    pub fn cell_height(&self) -> (r: i32)
        requires
            self.wf(),
        ensures
            r == axis_base(self@.height, self@.rows),
    {
        self.base_ch
    }

    /// Actual width of column `col`; the edge columns absorb the remainder.
    pub fn cell_width_at(&self, col: i32) -> (r: i32)
        requires
            self.wf(),
        ensures
            r == self@.x_cell(col as int),
            0 <= col < self@.columns ==> r == self@.x_line(col + 1) - self@.x_line(col as int),
    {
        proof {
            if 0 <= col < self.columns {
                lemma_axis_cell_gap(self@.origin_x, self@.width, self@.columns, col as int);
            }
        }
        cell_size_at(self.width, self.columns, self.pad_left, self.base_cw, col)
    }

    /// Actual height of row `row`; the edge rows absorb the remainder.
    pub fn cell_height_at(&self, row: i32) -> (r: i32)
        requires
            self.wf(),
        ensures
            r == self@.y_cell(row as int),
            0 <= row < self@.rows ==> r == self@.y_line(row + 1) - self@.y_line(row as int),
    {
        proof {
            if 0 <= row < self.rows {
                lemma_axis_cell_gap(self@.origin_y, self@.height, self@.rows, row as int);
            }
        }
        cell_size_at(self.height, self.rows, self.pad_top, self.base_ch, row)
    }

    /// Column index → x of its left edge (absolute). `col` is clamped into
    /// `0..=columns`; `columns` gives the right edge of the monitor area.
    pub fn col_to_x(&self, col: i32) -> (r: i32)
        requires
            self.wf(),
            self@.x_line_ok(col as int),
        ensures
            r == self@.x_line(col as int),
    {
        line_at(self.origin_x, self.width, self.columns, self.pad_left, self.base_cw, col)
    }

    /// Row index → y of its top edge (absolute). `row` is clamped into `0..=rows`.
    pub fn row_to_y(&self, row: i32) -> (r: i32)
        requires
            self.wf(),
            self@.y_line_ok(row as int),
        ensures
            r == self@.y_line(row as int),
    {
        line_at(self.origin_y, self.height, self.rows, self.pad_top, self.base_ch, row)
    }

    /// Snaps an x coordinate to the nearest vertical grid line (a tie goes left).
    pub fn snap_x(&self, px: i32) -> (r: i32)
        requires
            self.wf(),
            self@.snap_x_ok(px as int),
        ensures
            r == self@.x_snap(px as int),
            exists|c: int| 0 <= c <= self@.columns && r == #[trigger] self@.x_line(c),
            self@.width >= self@.columns ==> forall|c: int|
                0 <= c <= self@.columns ==> abs_int(px - r) <= abs_int(px - #[trigger] self@.x_line(c)),
    {
        let r = snap_at(self.origin_x, self.width, self.columns, self.pad_left, self.base_cw, px);
        proof {
            let g = self@;
            let (o, l, n) = (g.origin_x, g.width, g.columns);
            lemma_axis_index_range(o, l, n, px as int);
            let i = axis_index(o, l, n, px as int);
            assert(g.x_line(i) == axis_line(o, l, n, i));
            assert(g.x_line(i + 1) == axis_line(o, l, n, i + 1));
            if l >= n {
                assert forall|c: int| 0 <= c <= n implies abs_int(px - r) <= abs_int(
                    px - #[trigger] g.x_line(c),
                ) by {
                    lemma_axis_snap_nearest(o, l, n, px as int, c);
                }
            }
        }
        r
    }

    /// Snaps a y coordinate to the nearest horizontal grid line (a tie goes up).
    pub fn snap_y(&self, py: i32) -> (r: i32)
        requires
            self.wf(),
            self@.snap_y_ok(py as int),
        ensures
            r == self@.y_snap(py as int),
            exists|c: int| 0 <= c <= self@.rows && r == #[trigger] self@.y_line(c),
            self@.height >= self@.rows ==> forall|c: int|
                0 <= c <= self@.rows ==> abs_int(py - r) <= abs_int(py - #[trigger] self@.y_line(c)),
    {
        let r = snap_at(self.origin_y, self.height, self.rows, self.pad_top, self.base_ch, py);
        proof {
            let g = self@;
            let (o, l, n) = (g.origin_y, g.height, g.rows);
            lemma_axis_index_range(o, l, n, py as int);
            let i = axis_index(o, l, n, py as int);
            assert(g.y_line(i) == axis_line(o, l, n, i));
            assert(g.y_line(i + 1) == axis_line(o, l, n, i + 1));
            if l >= n {
                assert forall|c: int| 0 <= c <= n implies abs_int(py - r) <= abs_int(
                    py - #[trigger] g.y_line(c),
                ) by {
                    lemma_axis_snap_nearest(o, l, n, py as int, c);
                }
            }
        }
        r
    }

    /// x → index of the column that contains it (`0..columns`).
    fn px_to_col_index(&self, px: i32) -> (r: i32)
        requires
            self.wf(),
            axis_index_ok(self@.origin_x, self@.width, self@.columns, px as int),
        ensures
            r == self@.x_index(px as int),
            0 <= r < self@.columns,
    {
        proof {
            lemma_axis_index_range(self@.origin_x, self@.width, self@.columns, px as int);
        }
        index_at(self.origin_x, self.width, self.columns, self.pad_left, self.base_cw, px)
    }

    /// y → index of the row that contains it (`0..rows`).
    fn py_to_row_index(&self, py: i32) -> (r: i32)
        requires
            self.wf(),
            axis_index_ok(self@.origin_y, self@.height, self@.rows, py as int),
        ensures
            r == self@.y_index(py as int),
            0 <= r < self@.rows,
    {
        proof {
            lemma_axis_index_range(self@.origin_y, self@.height, self@.rows, py as int);
        }
        index_at(self.origin_y, self.height, self.rows, self.pad_top, self.base_ch, py)
    }
    /// The rectangle covered by `col_span` columns and `row_span` rows starting at
    /// (`col`, `row`); cell indices are clamped into the grid.
    pub fn cell_rect(&self, col: u32, row: u32, col_span: u32, row_span: u32) -> (r: CellRect)
        requires
            self.wf(),
            self@.cell_rect_ok(col as int, row as int, col_span as int, row_span as int),
        ensures
            r.x == self@.x_line((col as i32) as int),
            r.y == self@.y_line((row as i32) as int),
            r.x + r.w == self@.x_line(((col + col_span) as i32) as int),
            r.y + r.h == self@.y_line(((row + row_span) as i32) as int),
    {
        let x = self.col_to_x(col as i32);
        let x_end = self.col_to_x((col + col_span) as i32);
        let y = self.row_to_y(row as i32);
        let y_end = self.row_to_y((row + row_span) as i32);
        CellRect { x, y, w: x_end - x, h: y_end - y }
    }

    /// Pixel rectangle given by its edges → cells (`col`, `row`, `col_span`, `row_span`).
    /// Each edge is rounded to its nearest grid line, so an overshoot of less than half
    /// a cell falls back to the smaller span.
    pub fn edges_to_cell(&self, left: i32, top: i32, right: i32, bottom: i32) -> (r: (u32, u32, u32, u32))
        requires
            self.wf(),
            self@.edges_ok(left as int, top as int, right as int, bottom as int),
        ensures
            (r.0 as int, r.1 as int, r.2 as int, r.3 as int)
                == self@.edges_to_cell(left as int, top as int, right as int, bottom as int),
            r.2 >= 1,
            r.3 >= 1,
    {
        if self.base_cw <= 0 || self.base_ch <= 0 {
            return (0, 0, 1, 1);
        }
        let ghost g = self@;
        proof {
            lemma_axis_parts(g.width, g.columns);
            lemma_axis_parts(g.height, g.rows);
        }
        let snapped_left = self.snap_x(left);
        let snapped_top = self.snap_y(top);
        let snapped_right = self.snap_x(right);
        let snapped_bottom = self.snap_y(bottom);
        proof {
            lemma_axis_line_bounds(g.origin_x, g.width, g.columns, g.x_index(left as int));
            lemma_axis_line_bounds(g.origin_x, g.width, g.columns, g.x_index(left as int) + 1);
            lemma_axis_line_bounds(g.origin_x, g.width, g.columns, g.x_index(right as int));
            lemma_axis_line_bounds(g.origin_x, g.width, g.columns, g.x_index(right as int) + 1);
            lemma_axis_line_bounds(g.origin_y, g.height, g.rows, g.y_index(top as int));
            lemma_axis_line_bounds(g.origin_y, g.height, g.rows, g.y_index(top as int) + 1);
            lemma_axis_line_bounds(g.origin_y, g.height, g.rows, g.y_index(bottom as int));
            lemma_axis_line_bounds(g.origin_y, g.height, g.rows, g.y_index(bottom as int) + 1);
        }
        let col = self.px_to_col_index(snapped_left);
        let row = self.py_to_row_index(snapped_top);
        let r_probe = snapped_right - 1;
        let r_probe = if r_probe >= snapped_left { r_probe } else { snapped_left };
        let b_probe = snapped_bottom - 1;
        let b_probe = if b_probe >= snapped_top { b_probe } else { snapped_top };
        let col_end = self.px_to_col_index(r_probe);
        let row_end = self.py_to_row_index(b_probe);
        proof {
            lemma_axis_index_monotone(g.origin_x, g.width, g.columns, snapped_left as int, r_probe as int);
            lemma_axis_index_monotone(g.origin_y, g.height, g.rows, snapped_top as int, b_probe as int);
        }
        let col_u = col as u32;
        let row_u = row as u32;
        let col_span = col_end as u32 - col_u + 1;
        let row_span = row_end as u32 - row_u + 1;
        (col_u, row_u, col_span, row_span)
    }

    /// All grid lines (for drawing the overlay). The last vertical and horizontal
    /// lines are pulled in to `width - 1` / `height - 1` so that they stay on screen.
    pub fn grid_lines(&self) -> (r: GridLines)
        requires
            self.wf(),
            self@.x_fits(),
            self@.y_fits(),
            fits_i32(self@.origin_x + self@.width - 1),
            fits_i32(self@.origin_y + self@.height - 1),
        ensures
            r.verticals@.len() == self@.columns + 1,
            r.horizontals@.len() == self@.rows + 1,
            forall|c: int| 0 <= c <= self@.columns ==> #[trigger] r.verticals@[c]
                == min_int(self@.x_line(c), self@.origin_x + self@.width - 1),
            forall|c: int| 0 <= c <= self@.rows ==> #[trigger] r.horizontals@[c]
                == min_int(self@.y_line(c), self@.origin_y + self@.height - 1),
            r.origin_x == self@.origin_x,
            r.origin_y == self@.origin_y,
            r.width == self@.width,
            r.height == self@.height,
            self@.width >= 0 ==> forall|a: int, b: int|
                0 <= a <= b <= self@.columns ==> r.verticals@[a] <= r.verticals@[b],
            self@.height >= 0 ==> forall|a: int, b: int|
                0 <= a <= b <= self@.rows ==> r.horizontals@[a] <= r.horizontals@[b],
            self@.width >= 1 ==> forall|c: int| 0 <= c <= self@.columns ==>
                self@.origin_x <= #[trigger] r.verticals@[c] < self@.origin_x + self@.width,
            self@.height >= 1 ==> forall|c: int| 0 <= c <= self@.rows ==>
                self@.origin_y <= #[trigger] r.horizontals@[c] < self@.origin_y + self@.height,
    {
        let ghost g = self@;
        let last_x = self.origin_x + self.width - 1;
        let mut verticals: Vec<i32> = Vec::new();
        let mut c: i64 = 0;
        while c <= self.columns as i64
            invariant
                self.wf(),
                g == self@,
                g.x_fits(),
                last_x == g.origin_x + g.width - 1,
                0 <= c <= g.columns + 1,
                verticals@.len() == c,
                forall|k: int| 0 <= k < c ==> #[trigger] verticals@[k] == min_int(g.x_line(k), last_x as int),
            decreases g.columns + 1 - c,
        {
            proof {
                lemma_axis_line_ok(g.origin_x, g.width, g.columns, c as int);
            }
            let x = self.col_to_x(c as i32);
            let v = if x <= last_x { x } else { last_x };
            verticals.push(v);
            c = c + 1;
        }
        let last_y = self.origin_y + self.height - 1;
        let mut horizontals: Vec<i32> = Vec::new();
        let mut r: i64 = 0;
        while r <= self.rows as i64
            invariant
                self.wf(),
                g == self@,
                g.y_fits(),
                last_y == g.origin_y + g.height - 1,
                0 <= r <= g.rows + 1,
                horizontals@.len() == r,
                forall|k: int| 0 <= k < r ==> #[trigger] horizontals@[k] == min_int(g.y_line(k), last_y as int),
            decreases g.rows + 1 - r,
        {
            proof {
                lemma_axis_line_ok(g.origin_y, g.height, g.rows, r as int);
            }
            let y = self.row_to_y(r as i32);
            let v = if y <= last_y { y } else { last_y };
            horizontals.push(v);
            r = r + 1;
        }
        proof {
            if g.width >= 0 {
                assert forall|a: int, b: int| 0 <= a <= b <= g.columns implies verticals@[a] <= verticals@[b] by {
                    lemma_axis_monotone(g.origin_x, g.width, g.columns, a, b);
                }
            }
            if g.height >= 0 {
                assert forall|a: int, b: int| 0 <= a <= b <= g.rows implies horizontals@[a] <= horizontals@[b] by {
                    lemma_axis_monotone(g.origin_y, g.height, g.rows, a, b);
                }
            }
            if g.width >= 1 {
                assert forall|k: int| 0 <= k <= g.columns implies g.origin_x <= #[trigger] verticals@[k]
                    < g.origin_x + g.width by {
                    lemma_axis_line_bounds(g.origin_x, g.width, g.columns, k);
                }
            }
            if g.height >= 1 {
                assert forall|k: int| 0 <= k <= g.rows implies g.origin_y <= #[trigger] horizontals@[k]
                    < g.origin_y + g.height by {
                    lemma_axis_line_bounds(g.origin_y, g.height, g.rows, k);
                }
            }
        }
        GridLines {
            verticals,
            horizontals,
            origin_x: self.origin_x,
            origin_y: self.origin_y,
            width: self.width,
            height: self.height,
        }
    }
}

// ───────────────────────── laws ─────────────────────────

/// The columns tile the monitor width exactly and the rows its height: the cell sizes
/// that `cell_width_at` / `cell_height_at` report add up to the whole area, each cell
/// spans from one grid line to the next, and the outer lines are the area's edges.
pub proof fn lemma_cells_tile_area(g: GridView)
    requires
        g.columns >= 1,
        g.rows >= 1,
    ensures
        g.x_cells_total(g.columns) == g.width,
        g.y_cells_total(g.rows) == g.height,
        g.x_line(0) == g.origin_x,
        g.x_line(g.columns) == g.origin_x + g.width,
        g.y_line(0) == g.origin_y,
        g.y_line(g.rows) == g.origin_y + g.height,
        forall|c: int| 0 <= c < g.columns ==> #[trigger] g.x_cell(c) == g.x_line(c + 1) - g.x_line(c),
        forall|r: int| 0 <= r < g.rows ==> #[trigger] g.y_cell(r) == g.y_line(r + 1) - g.y_line(r),
{
    assert forall|c: int| 0 <= c < g.columns implies #[trigger] g.x_cell(c) == g.x_line(c + 1) - g.x_line(c) by {
        lemma_axis_cell_gap(g.origin_x, g.width, g.columns, c);
    }
    assert forall|r: int| 0 <= r < g.rows implies #[trigger] g.y_cell(r) == g.y_line(r + 1) - g.y_line(r) by {
        lemma_axis_cell_gap(g.origin_y, g.height, g.rows, r);
    }
    lemma_x_cells_total(g, g.columns);
    lemma_y_cells_total(g, g.rows);
}

proof fn lemma_x_cells_total(g: GridView, k: int)
    requires
        g.columns >= 1,
        0 <= k <= g.columns,
    ensures
        g.x_cells_total(k) == g.x_line(k) - g.x_line(0),
    decreases k,
{
    if k > 0 {
        lemma_x_cells_total(g, k - 1);
        lemma_axis_cell_gap(g.origin_x, g.width, g.columns, k - 1);
    }
}

proof fn lemma_y_cells_total(g: GridView, k: int)
    requires
        g.rows >= 1,
        0 <= k <= g.rows,
    ensures
        g.y_cells_total(k) == g.y_line(k) - g.y_line(0),
    decreases k,
{
    if k > 0 {
        lemma_y_cells_total(g, k - 1);
        lemma_axis_cell_gap(g.origin_y, g.height, g.rows, k - 1);
    }
}

/// Grid lines are ordered: on an area of non-negative size they never decrease, and
/// when every cell holds at least one pixel they strictly increase.
pub proof fn lemma_lines_ordered(g: GridView, a: int, b: int)
    requires
        g.columns >= 1,
        g.rows >= 1,
        a <= b,
    ensures
        g.width >= 0 ==> g.x_line(a) <= g.x_line(b),
        g.height >= 0 ==> g.y_line(a) <= g.y_line(b),
        g.width >= g.columns && 0 <= a < b <= g.columns ==> g.x_line(a) < g.x_line(b),
        g.height >= g.rows && 0 <= a < b <= g.rows ==> g.y_line(a) < g.y_line(b),
{
    if g.width >= 0 {
        lemma_axis_monotone(g.origin_x, g.width, g.columns, a, b);
    }
    if g.height >= 0 {
        lemma_axis_monotone(g.origin_y, g.height, g.rows, a, b);
    }
    if g.width >= g.columns && 0 <= a < b <= g.columns {
        lemma_axis_strict(g.origin_x, g.width, g.columns, a, b);
    }
    if g.height >= g.rows && 0 <= a < b <= g.rows {
        lemma_axis_strict(g.origin_y, g.height, g.rows, a, b);
    }
}

/// Snapping a coordinate that already lies on a grid line leaves it where it is.
pub proof fn lemma_snap_keeps_lines(g: GridView, c: int, r: int)
    requires
        g.columns >= 1,
        g.rows >= 1,
        g.cells_nonempty(),
        0 <= c <= g.columns,
        0 <= r <= g.rows,
    ensures
        g.x_snap(g.x_line(c)) == g.x_line(c),
        g.y_snap(g.y_line(r)) == g.y_line(r),
{
    lemma_axis_snap_nearest(g.origin_x, g.width, g.columns, g.x_line(c), c);
    lemma_axis_snap_nearest(g.origin_y, g.height, g.rows, g.y_line(r), r);
}

/// A rectangle made of whole cells turns back into exactly those cells: the edges of
/// `col_span` x `row_span` cells at (`col`, `row`) give back (`col`, `row`, `col_span`,
/// `row_span`), and computing them does not overflow.
pub proof fn lemma_cell_roundtrip(g: GridView, col: int, row: int, col_span: int, row_span: int)
    requires
        g.columns >= 1,
        g.rows >= 1,
        g.cells_nonempty(),
        g.x_fits(),
        g.y_fits(),
        col >= 0,
        row >= 0,
        col_span >= 1,
        row_span >= 1,
        col + col_span <= g.columns,
        row + row_span <= g.rows,
    ensures
        g.edges_ok(g.x_line(col), g.y_line(row), g.x_line(col + col_span), g.y_line(row + row_span)),
        g.edges_to_cell(g.x_line(col), g.y_line(row), g.x_line(col + col_span), g.y_line(row + row_span))
            == (col, row, col_span, row_span),
{
    lemma_axis_roundtrip(g.origin_x, g.width, g.columns, col, col_span);
    lemma_axis_roundtrip(g.origin_y, g.height, g.rows, row, row_span);
    lemma_axis_parts(g.width, g.columns);
    lemma_axis_parts(g.height, g.rows);
}

proof fn lemma_axis_roundtrip(o: int, l: int, n: int, c: int, s: int)
    requires
        n >= 1,
        l >= n,
        axis_fits(o, l),
        c >= 0,
        s >= 1,
        c + s <= n,
    ensures
        axis_snap_ok(o, l, n, axis_line(o, l, n, c)),
        axis_snap_ok(o, l, n, axis_line(o, l, n, c + s)),
        axis_snap(o, l, n, axis_line(o, l, n, c)) == axis_line(o, l, n, c),
        axis_snap(o, l, n, axis_line(o, l, n, c + s)) == axis_line(o, l, n, c + s),
        fits_i32(axis_line(o, l, n, c + s) - 1),
        axis_index(o, l, n, axis_line(o, l, n, c)) == c,
        axis_index(o, l, n, max_int(axis_line(o, l, n, c + s) - 1, axis_line(o, l, n, c))) == c + s - 1,
{
    let lc = axis_line(o, l, n, c);
    let ls = axis_line(o, l, n, c + s);
    lemma_axis_parts(l, n);
    lemma_axis_snap_nearest(o, l, n, lc, c);
    lemma_axis_snap_nearest(o, l, n, ls, c + s);
    lemma_axis_strict(o, l, n, c, c + 1);
    lemma_axis_strict(o, l, n, c, c + s);
    if c + s - 1 > c {
        lemma_axis_strict(o, l, n, c, c + s - 1);
    }
    lemma_axis_strict(o, l, n, c + s - 1, c + s);
    lemma_axis_index_unique(o, l, n, lc, c);
    lemma_axis_index_unique(o, l, n, ls - 1, c + s - 1);
    lemma_axis_line_bounds(o, l, n, c);
    lemma_axis_line_bounds(o, l, n, c + s);
    lemma_axis_index_range(o, l, n, lc);
    lemma_axis_index_range(o, l, n, ls);
    lemma_axis_line_ok(o, l, n, axis_index(o, l, n, lc));
    lemma_axis_line_ok(o, l, n, axis_index(o, l, n, lc) + 1);
    lemma_axis_line_ok(o, l, n, axis_index(o, l, n, ls));
    lemma_axis_line_ok(o, l, n, axis_index(o, l, n, ls) + 1);
    let ic = axis_index(o, l, n, lc);
    let is = axis_index(o, l, n, ls);
    lemma_axis_line_bounds(o, l, n, ic);
    lemma_axis_line_bounds(o, l, n, ic + 1);
    lemma_axis_line_bounds(o, l, n, is);
    lemma_axis_line_bounds(o, l, n, is + 1);
}

} // verus!
