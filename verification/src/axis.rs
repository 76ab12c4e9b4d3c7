//! One axis of a grid: `len` pixels starting at `origin`, split into `n` cells.
//! Interior cells are `base` pixels wide; the remainder is shared between the
//! first and the last cell (the first gets half of it, rounded toward zero).
//! The x axis and the y axis of a `Grid` are both instances of this model.

use vstd::prelude::*;
use crate::arith::{tdiv, trem, clamp_int, abs_int, fits_i32, lemma_tdiv_trem, lemma_mul_between};
use vstd::arithmetic::div_mod::{lemma_div_is_ordered, lemma_fundamental_div_mod, lemma_mod_bound};

verus! {

/// Width of an interior cell.
pub open spec fn axis_base(len: int, n: int) -> int {
    tdiv(len, n)
}

/// Extra pixels given to the first cell.
pub open spec fn axis_pad(len: int, n: int) -> int {
    tdiv(trem(len, n), 2)
}

/// Coordinate of grid line `c` (`0..=n`, clamped into that range).
pub open spec fn axis_line(origin: int, len: int, n: int, c: int) -> int {
    let c = clamp_int(c, 0, n);
    if c == 0 {
        origin
    } else if c == n {
        origin + len
    } else {
        origin + axis_pad(len, n) + c * axis_base(len, n)
    }
}

/// Size of cell `i`: the edge cells absorb the remainder.
pub open spec fn axis_cell(len: int, n: int, i: int) -> int {
    if i == 0 {
        axis_base(len, n) + axis_pad(len, n)
    } else if i == n - 1 {
        axis_base(len, n) + trem(len, n) - axis_pad(len, n)
    } else {
        axis_base(len, n)
    }
}

/// Index of the cell that contains coordinate `p` (`0..n`).
pub open spec fn axis_index(origin: int, len: int, n: int, p: int) -> int {
    let rel = p - origin;
    if rel < 0 {
        0
    } else if rel >= len {
        n - 1
    } else if rel < axis_pad(len, n) + axis_base(len, n) {
        0
    } else {
        clamp_int(tdiv(rel - axis_pad(len, n), axis_base(len, n)), 1, n - 1)
    }
}

/// The nearer of the two lines around the cell that contains `p`; a tie goes to the lower line.
pub open spec fn axis_snap(origin: int, len: int, n: int, p: int) -> int {
    let i = axis_index(origin, len, n, p);
    let lo = axis_line(origin, len, n, i);
    let hi = axis_line(origin, len, n, i + 1);
    if abs_int(p - lo) <= abs_int(p - hi) { lo } else { hi }
}

/// The far end of the axis is an `i32`.
pub open spec fn axis_fits(origin: int, len: int) -> bool {
    fits_i32(origin) && fits_i32(len) && fits_i32(origin + len)
}

/// Computing line `c` does not overflow.
pub open spec fn axis_line_ok(origin: int, len: int, n: int, c: int) -> bool {
    let c = clamp_int(c, 0, n);
    if c == 0 {
        true
    } else if c == n {
        fits_i32(origin + len)
    } else {
        fits_i32(origin + axis_pad(len, n)) && fits_i32(origin + axis_pad(len, n) + c * axis_base(len, n))
    }
}

/// When the far end of the axis is an `i32`, every line can be computed.
pub proof fn lemma_axis_line_ok(origin: int, len: int, n: int, c: int)
    requires
        n >= 1,
        axis_fits(origin, len),
    ensures
        axis_line_ok(origin, len, n, c),
{
    let cc = clamp_int(c, 0, n);
    lemma_axis_interior(len, n, cc);
    lemma_axis_parts(len, n);
}

/// Finding the cell of `p` neither overflows nor divides by zero
/// (the division is reached only for `p` past the first cell).
pub open spec fn axis_index_ok(origin: int, len: int, n: int, p: int) -> bool {
    &&& fits_i32(p - origin)
    &&& !(axis_base(len, n) == 0 && axis_pad(len, n) <= p - origin < len)
}

/// Snapping `p` neither overflows nor divides by zero.
pub open spec fn axis_snap_ok(origin: int, len: int, n: int, p: int) -> bool {
    let i = axis_index(origin, len, n, p);
    &&& fits_i32(origin)
    &&& fits_i32(len)
    &&& axis_index_ok(origin, len, n, p)
    &&& axis_line_ok(origin, len, n, i)
    &&& axis_line_ok(origin, len, n, i + 1)
    &&& i32::MIN < p - axis_line(origin, len, n, i) <= i32::MAX
    &&& i32::MIN < p - axis_line(origin, len, n, i + 1) <= i32::MAX
}

// ───────────────────────── lemmas ─────────────────────────

/// `len = n * base + rem`, with the padding between zero and the remainder.
pub proof fn lemma_axis_parts(len: int, n: int)
    requires
        n >= 1,
    ensures
        len == n * axis_base(len, n) + trem(len, n),
        len >= 0 ==> 0 <= axis_pad(len, n) <= trem(len, n) < n && axis_base(len, n) >= 0,
        len < 0 ==> -n < trem(len, n) <= axis_pad(len, n) <= 0 && axis_base(len, n) <= 0,
        n == 1 ==> axis_base(len, n) == len && trem(len, n) == 0 && axis_pad(len, n) == 0,
        len >= n ==> axis_base(len, n) >= 1,
        axis_base(len, n) >= 1 ==> len >= n,
        len >= 0 ==> 0 <= axis_base(len, n) + trem(len, n) <= len,
        len < 0 ==> len <= axis_base(len, n) + trem(len, n) <= 0,
{
    lemma_tdiv_trem(len, n);
    lemma_tdiv_trem(trem(len, n), 2);
    if n == 1 {
        assert(trem(len, 1) == 0) by {
            lemma_mod_bound(len, 1);
            lemma_mod_bound(-len, 1);
        }
        assert(axis_pad(len, n) == 0);
    }
    let bb = axis_base(len, n);
    if bb >= 0 {
        assert(bb <= n * bb) by (nonlinear_arith) requires bb >= 0, n >= 1;
        if bb == 0 {
            assert(n * bb == 0) by (nonlinear_arith) requires bb == 0;
        }
    } else {
        assert(n * bb <= bb) by (nonlinear_arith) requires bb < 0, n >= 1;
    }
    if bb >= 1 {
        assert(n * bb >= n) by (nonlinear_arith) requires bb >= 1, n >= 1;
    }
    if len >= n {
        let b = axis_base(len, n);
        if b < 1 {
            assert(n * b <= 0) by (nonlinear_arith) requires n >= 1, b < 1;
        }
    }
}

/// The cell index is always one of the `n` cells.
pub proof fn lemma_axis_index_range(origin: int, len: int, n: int, p: int)
    requires
        n >= 1,
    ensures
        0 <= axis_index(origin, len, n, p) < n,
{
    lemma_axis_parts(len, n);
}

/// The pieces of an interior line stay within the axis, so computing it does not overflow.
pub proof fn lemma_axis_interior(len: int, n: int, c: int)
    requires
        n >= 1,
        0 <= c <= n,
    ensures
        len >= 0 ==> 0 <= c * axis_base(len, n) <= len
            && 0 <= axis_pad(len, n) + c * axis_base(len, n)
            && (c < n ==> axis_pad(len, n) + c * axis_base(len, n) <= len),
        len < 0 ==> len <= c * axis_base(len, n) <= 0
            && axis_pad(len, n) + c * axis_base(len, n) <= 0
            && (c < n ==> len <= axis_pad(len, n) + c * axis_base(len, n)),
{
    lemma_axis_parts(len, n);
    let b = axis_base(len, n);
    lemma_mul_between(b, c, n);
    assert(c * b == b * c && n * b == b * n) by (nonlinear_arith);
    let r = trem(len, n);
    let pd = axis_pad(len, n);
    if c < n {
        lemma_mul_between(b, c, n - 1);
        assert(b * (n - 1) == b * n - b) by (nonlinear_arith);
        assert(c * b == b * c) by (nonlinear_arith);
        if len < 0 {
            assert(b <= 0);
            assert(b * (n - 1) <= b * c) by (nonlinear_arith) requires b <= 0, 0 <= c <= n - 1;
            assert(pd + c * b >= r + n * b - b);
        }
    }
}

/// Every line lies on the axis.
pub proof fn lemma_axis_line_bounds(origin: int, len: int, n: int, c: int)
    requires
        n >= 1,
    ensures
        len >= 0 ==> origin <= axis_line(origin, len, n, c) <= origin + len,
        len < 0 ==> origin + len <= axis_line(origin, len, n, c) <= origin,
{
    let cc = clamp_int(c, 0, n);
    lemma_axis_interior(len, n, cc);
}

/// Cell `i` spans exactly from line `i` to line `i + 1`.
pub proof fn lemma_axis_cell_gap(origin: int, len: int, n: int, i: int)
    requires
        n >= 1,
        0 <= i < n,
    ensures
        axis_cell(len, n, i) == axis_line(origin, len, n, i + 1) - axis_line(origin, len, n, i),
{
    lemma_axis_parts(len, n);
    let b = axis_base(len, n);
    let p = axis_pad(len, n);
    if i + 1 < n && i > 0 {
        assert((i + 1) * b == i * b + b) by (nonlinear_arith);
    } else if i + 1 < n {
        assert(1 * b == b);
    } else if i > 0 {
        assert(n * b == (n - 1) * b + b) by (nonlinear_arith);
    }
}

/// On an axis with at least one pixel per cell, lines strictly increase.
pub proof fn lemma_axis_strict(origin: int, len: int, n: int, a: int, c: int)
    requires
        n >= 1,
        len >= n,
        0 <= a < c <= n,
    ensures
        axis_line(origin, len, n, a) < axis_line(origin, len, n, c),
{
    lemma_axis_parts(len, n);
    let b = axis_base(len, n);
    let p = axis_pad(len, n);
    if a > 0 && c < n {
        assert(a * b < c * b) by (nonlinear_arith) requires a < c, b >= 1;
    } else if a == 0 && c < n {
        assert(c * b >= 1) by (nonlinear_arith) requires c >= 1, b >= 1;
    } else if a > 0 {
        // c == n
        assert(a * b <= (n - 1) * b) by (nonlinear_arith) requires a <= n - 1, b >= 1;
        assert(n * b == (n - 1) * b + b) by (nonlinear_arith);
    }
}

/// On an axis of non-negative length, lines never decrease.
pub proof fn lemma_axis_monotone(origin: int, len: int, n: int, a: int, c: int)
    requires
        n >= 1,
        len >= 0,
        a <= c,
    ensures
        axis_line(origin, len, n, a) <= axis_line(origin, len, n, c),
{
    lemma_axis_parts(len, n);
    let b = axis_base(len, n);
    let ca = clamp_int(a, 0, n);
    let cc = clamp_int(c, 0, n);
    lemma_axis_interior(len, n, ca);
    lemma_axis_interior(len, n, cc);
    if 0 < ca && cc < n {
        assert(ca * b <= cc * b) by (nonlinear_arith) requires ca <= cc, b >= 0;
    }
}

/// On an axis with at least one pixel per cell, the cell index is in range and,
/// for a coordinate on the axis, names the cell that contains it.
pub proof fn lemma_axis_index(origin: int, len: int, n: int, p: int)
    requires
        n >= 1,
        len >= n,
    ensures
        0 <= axis_index(origin, len, n, p) < n,
        p < origin ==> axis_index(origin, len, n, p) == 0,
        p >= origin + len ==> axis_index(origin, len, n, p) == n - 1,
        origin <= p < origin + len ==> axis_line(origin, len, n, axis_index(origin, len, n, p)) <= p
            < axis_line(origin, len, n, axis_index(origin, len, n, p) + 1),
{
    lemma_axis_parts(len, n);
    let b = axis_base(len, n);
    let pd = axis_pad(len, n);
    let rel = p - origin;
    if 0 <= rel < len && rel >= pd + b {
        assert(n >= 2) by {
            if n == 1 {
                assert(pd + b == len);
            }
        }
        let est = tdiv(rel - pd, b);
        lemma_fundamental_div_mod(rel - pd, b);
        lemma_mod_bound(rel - pd, b);
        assert(est * b <= rel - pd < est * b + b) by (nonlinear_arith)
            requires
                rel - pd == b * est + (rel - pd) % b,
                0 <= (rel - pd) % b < b;
        lemma_div_is_ordered(b, rel - pd, b);
        assert(b / b == 1) by {
            lemma_fundamental_div_mod(b, b);
            vstd::arithmetic::div_mod::lemma_div_basics(b);
        }
        assert(est >= 1);
        let i = axis_index(origin, len, n, p);
        if est <= n - 1 {
            assert(i == est);
            if est + 1 < n {
                assert((est + 1) * b == est * b + b) by (nonlinear_arith);
            }
        } else {
            assert(i == n - 1);
            assert((n - 1) * b <= est * b) by (nonlinear_arith) requires n - 1 <= est, b >= 1;
        }
    } else if 0 <= rel < len {
        if n > 1 {
            assert(1 * b == b);
        }
    }
}

/// Two cells cannot both contain the same coordinate.
pub proof fn lemma_axis_index_unique(origin: int, len: int, n: int, p: int, c: int)
    requires
        n >= 1,
        len >= n,
        0 <= c < n,
        axis_line(origin, len, n, c) <= p < axis_line(origin, len, n, c + 1),
    ensures
        axis_index(origin, len, n, p) == c,
{
    lemma_axis_line_bounds(origin, len, n, c);
    lemma_axis_line_bounds(origin, len, n, c + 1);
    lemma_axis_index(origin, len, n, p);
    let i = axis_index(origin, len, n, p);
    if i < c {
        if i + 1 < c {
            lemma_axis_strict(origin, len, n, i + 1, c);
        }
    } else if i > c {
        if c + 1 < i {
            lemma_axis_strict(origin, len, n, c + 1, i);
        }
    }
}

/// The cell index never decreases as the coordinate grows.
pub proof fn lemma_axis_index_monotone(origin: int, len: int, n: int, p: int, q: int)
    requires
        n >= 1,
        len >= n,
        p <= q,
    ensures
        axis_index(origin, len, n, p) <= axis_index(origin, len, n, q),
{
    lemma_axis_index(origin, len, n, p);
    lemma_axis_index(origin, len, n, q);
    let ip = axis_index(origin, len, n, p);
    let iq = axis_index(origin, len, n, q);
    if ip > iq {
        if iq + 1 < ip {
            lemma_axis_strict(origin, len, n, iq + 1, ip);
        }
    }
}

/// Snapping picks a line that is at least as close to `p` as every line of the axis.
pub proof fn lemma_axis_snap_nearest(origin: int, len: int, n: int, p: int, c: int)
    requires
        n >= 1,
        len >= n,
        0 <= c <= n,
    ensures
        abs_int(p - axis_snap(origin, len, n, p)) <= abs_int(p - axis_line(origin, len, n, c)),
{
    lemma_axis_index(origin, len, n, p);
    let i = axis_index(origin, len, n, p);
    let lo = axis_line(origin, len, n, i);
    let hi = axis_line(origin, len, n, i + 1);
    lemma_axis_strict(origin, len, n, i, i + 1);
    lemma_axis_line_bounds(origin, len, n, c);
    if c <= i {
        if c < i {
            lemma_axis_strict(origin, len, n, c, i);
        }
    } else {
        if i + 1 < c {
            lemma_axis_strict(origin, len, n, i + 1, c);
        }
    }
    if p < origin {
        assert(i == 0);
    }
    if p >= origin + len {
        assert(i + 1 == n);
    }
}

// ───────────────────────── exec helpers ─────────────────────────

/// Grid line `c`, with the precomputed padding and interior width.
pub fn line_at(origin: i32, len: i32, n: i32, pad: i32, base: i32, c: i32) -> (r: i32)
    requires
        n >= 1,
        pad == axis_pad(len as int, n as int),
        base == axis_base(len as int, n as int),
        axis_line_ok(origin as int, len as int, n as int, c as int),
    ensures
        r == axis_line(origin as int, len as int, n as int, c as int),
{
    let c = if c < 0 { 0 } else if c > n { n } else { c };
    if c == 0 {
        origin
    } else if c == n {
        origin + len
    } else {
        proof {
            lemma_axis_interior(len as int, n as int, c as int);
            lemma_axis_parts(len as int, n as int);
        }
        origin + pad + c * base
    }
}

/// Size of cell `i`.
pub fn cell_size_at(len: i32, n: i32, pad: i32, base: i32, i: i32) -> (r: i32)
    requires
        n >= 1,
        pad == axis_pad(len as int, n as int),
        base == axis_base(len as int, n as int),
    ensures
        r == axis_cell(len as int, n as int, i as int),
{
    proof {
        lemma_axis_parts(len as int, n as int);
        lemma_axis_interior(len as int, n as int, 1);
    }
    if i == 0 {
        base + pad
    } else if i == n - 1 {
        let rem = len % n;
        assert(rem as int == trem(len as int, n as int));
        base + rem - pad
    } else {
        base
    }
}

/// Index of the cell containing `p`.
pub fn index_at(origin: i32, len: i32, n: i32, pad: i32, base: i32, p: i32) -> (r: i32)
    requires
        n >= 1,
        pad == axis_pad(len as int, n as int),
        base == axis_base(len as int, n as int),
        axis_index_ok(origin as int, len as int, n as int, p as int),
    ensures
        r == axis_index(origin as int, len as int, n as int, p as int),
{
    let rel = p - origin;
    if rel < 0 {
        return 0;
    }
    if rel >= len {
        return n - 1;
    }
    proof {
        lemma_axis_parts(len as int, n as int);
        lemma_axis_interior(len as int, n as int, 1);
    }
    let left_edge = pad + base;
    if rel < left_edge {
        return 0;
    }
    let est = (rel - pad) / base;
    if est < 1 {
        1
    } else if est > n - 1 {
        n - 1
    } else {
        est
    }
}

/// The grid line nearest to `p` among the two around its cell.
pub fn snap_at(origin: i32, len: i32, n: i32, pad: i32, base: i32, p: i32) -> (r: i32)
    requires
        n >= 1,
        pad == axis_pad(len as int, n as int),
        base == axis_base(len as int, n as int),
        axis_snap_ok(origin as int, len as int, n as int, p as int),
    ensures
        r == axis_snap(origin as int, len as int, n as int, p as int),
{
    let i = index_at(origin, len, n, pad, base, p);
    proof {
        lemma_axis_index_range(origin as int, len as int, n as int, p as int);
    }
    let lo = line_at(origin, len, n, pad, base, i);
    let hi = line_at(origin, len, n, pad, base, i + 1);
    let dlo = p - lo;
    let dlo = if dlo < 0 { -dlo } else { dlo };
    let dhi = p - hi;
    let dhi = if dhi < 0 { -dhi } else { dhi };
    if dlo <= dhi { lo } else { hi }
}

} // verus!
