//! Integer helpers: Rust's truncating division and remainder, and the facts
//! about them that the grid geometry relies on.

use vstd::prelude::*;
use vstd::arithmetic::div_mod::{lemma_fundamental_div_mod, lemma_mod_bound, lemma_div_pos_is_pos};
use vstd::arithmetic::mul::lemma_mul_inequality;

verus! {

/// `a / b` as Rust computes it on signed integers: the quotient rounded toward zero.
pub open spec fn tdiv(a: int, b: int) -> int {
    if a >= 0 { a / b } else { -((-a) / b) }
}

/// `a % b` as Rust computes it on signed integers: the remainder takes the sign of `a`.
pub open spec fn trem(a: int, b: int) -> int {
    if a >= 0 { a % b } else { -((-a) % b) }
}

/// `v` limited to `lo..=hi`.
pub open spec fn clamp_int(v: int, lo: int, hi: int) -> int {
    if v < lo { lo } else if v > hi { hi } else { v }
}

pub open spec fn abs_int(v: int) -> int {
    if v < 0 { -v } else { v }
}

pub open spec fn min_int(a: int, b: int) -> int {
    if a <= b { a } else { b }
}

pub open spec fn max_int(a: int, b: int) -> int {
    if a >= b { a } else { b }
}

pub open spec fn fits_i32(v: int) -> bool {
    i32::MIN <= v <= i32::MAX
}

/// Truncating division splits `a` into `b` equal parts and a remainder of the same sign as `a`.
pub proof fn lemma_tdiv_trem(a: int, b: int)
    requires
        b > 0,
    ensures
        a == b * tdiv(a, b) + trem(a, b),
        a >= 0 ==> 0 <= trem(a, b) < b && tdiv(a, b) >= 0,
        a < 0 ==> -b < trem(a, b) <= 0 && tdiv(a, b) <= 0,
{
    if a >= 0 {
        lemma_fundamental_div_mod(a, b);
        lemma_mod_bound(a, b);
        lemma_div_pos_is_pos(a, b);
    } else {
        lemma_fundamental_div_mod(-a, b);
        lemma_mod_bound(-a, b);
        lemma_div_pos_is_pos(-a, b);
        assert(b * (-((-a) / b)) == -(b * ((-a) / b))) by (nonlinear_arith);
    }
}

/// `q * c` stays between `0` and `q * n` when `0 <= c <= n`, whatever the sign of `q`.
pub proof fn lemma_mul_between(q: int, c: int, n: int)
    requires
        0 <= c <= n,
    ensures
        q >= 0 ==> 0 <= q * c <= q * n,
        q < 0 ==> q * n <= q * c <= 0,
{
    if q >= 0 {
        lemma_mul_inequality(c, n, q);
        assert(q * c == c * q && q * n == n * q) by (nonlinear_arith);
        assert(0 <= q * c) by (nonlinear_arith) requires q >= 0, c >= 0;
    } else {
        assert(q * n <= q * c <= 0) by (nonlinear_arith) requires q < 0, 0 <= c <= n;
    }
}

} // verus!
