//! Fixed-point pixel arithmetic.
//!
//! Every length and position in pixel space is an integer that counts
//! subpixels, 64 to the pixel. A quantity `v` therefore stands for the
//! rational number `v / 64` of pixels, and sums, differences and products
//! with whole numbers are exact.

use vstd::prelude::*;

verus! {

/// Number of subpixels in one pixel.
pub const SUBPIXELS: i64 = 64;

/// The least integer `q` with `q * d >= a`, for a positive `d`.
pub open spec fn ceil_div(a: int, d: int) -> int {
    -((-a) / d)
}

/// The integer nearest to `a / d` for a positive `d`, the upper one where
/// two are equally near.
pub open spec fn round_div(a: int, d: int) -> int {
    (2 * a + d) / (2 * d)
}

/// `ceil_div(a, d)` is the least integer whose product with `d` reaches `a`.
pub proof fn lemma_ceil_div_is_least(a: int, d: int)
    requires
        d > 0,
    ensures
        ceil_div(a, d) * d >= a,
        (ceil_div(a, d) - 1) * d < a,
{
    let q = (-a) / d;
    let r = (-a) % d;
    assert(-a == d * q + r && 0 <= r < d) by (nonlinear_arith)
        requires
            d > 0,
            q == (-a) / d,
            r == (-a) % d,
    ;
    assert((-q) * d == -(d * q) && (-q - 1) * d == -(d * q) - d) by (nonlinear_arith);
}

/// `round_div(a, d)` lies within half of `d` of `a`, and half-way cases go up.
pub proof fn lemma_round_div_is_nearest(a: int, d: int)
    requires
        d > 0,
    ensures
        2 * (round_div(a, d) * d) <= 2 * a + d,
        2 * a + d < 2 * (round_div(a, d) * d) + 2 * d,
{
    let n = 2 * a + d;
    let m = 2 * d;
    let q = n / m;
    let r = n % m;
    assert(n == m * q + r && 0 <= r < m) by (nonlinear_arith)
        requires
            m > 0,
            q == n / m,
            r == n % m,
    ;
    assert(m * q == 2 * (q * d)) by (nonlinear_arith)
        requires
            m == 2 * d,
    ;
}

/// Rounds a count of quarter subpixels up to whole pixels.
pub fn ceil_pixels(quarters: i64) -> (pixels: i64)
    ensures
        pixels == ceil_div(quarters as int, 256),
{
    let q: i64 = quarters / 256;
    let r: i64 = quarters % 256;
    if quarters > 0 && r != 0 {
        q + 1
    } else {
        q
    }
}

/// Rounds a count of quarter subpixels to the nearest whole pixels, halves up.
pub fn round_pixels(quarters: i64) -> (pixels: i64)
    ensures
        pixels == round_div(quarters as int, 256),
{
    let q: i64 = quarters / 256;
    let r: i64 = quarters % 256;
    assert(round_div(quarters as int, 256) == (512 * q + (2 * r + 256)) / 512);
    if r >= 128 {
        q + 1
    } else if r < -128 {
        q - 1
    } else {
        q
    }
}

} // verus!
