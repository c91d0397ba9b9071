//! Fixed-point scalar arithmetic.
//!
//! One world tile spans `FP` units, so a coordinate of `3 * FP / 2` lies in
//! the middle of the second tile column.  All geometric computation in this
//! crate is carried out on such integers; the helpers here pin down the exact
//! rounding behaviour (truncation toward zero) that the geometry code relies
//! on.

use vstd::prelude::*;
use vstd::arithmetic::div_mod::{lemma_div_pos_is_pos, lemma_div_nonincreasing};

verus! {

/// Number of fixed-point units per world tile.
pub const FP: i64 = 65536;

/// Offset kept between a clamped position and a tile boundary by the
/// collision resolver (about a thousandth of a tile), so that the next frame
/// does not immediately re-trigger the same collision.
pub const EPS: i64 = 65;

/// Largest parametric hit distance a ray test reports.  It corresponds to
/// about sixteen million tiles, far beyond any representable grid; anything
/// larger is treated as a miss so every intermediate product stays bounded.
pub const T_LIMIT: i64 = 0x100_0000_0000;

/// Division rounding toward zero, the rounding of the executable code.
/// Only used with a positive divisor.
pub open spec fn qdiv(a: int, b: int) -> int
    recommends
        b > 0,
{
    if a >= 0 {
        a / b
    } else {
        -((-a) / b)
    }
}

/// Division rounding toward zero for a divisor of either sign.
pub open spec fn qdiv2(a: int, b: int) -> int
    recommends
        b != 0,
{
    if b > 0 {
        qdiv(a, b)
    } else {
        qdiv(-a, -b)
    }
}

/// The square root rounded down: the unique `r >= 0` with
/// `r * r <= n < (r + 1) * (r + 1)`.
pub open spec fn sqrt_floor(n: int) -> int
    recommends
        n >= 0,
{
    choose|r: int| r >= 0 && #[trigger] (r * r) <= n && n < (r + 1) * (r + 1)
}

/// The square root rounded down exists, is unique, and `sqrt_floor` returns it.
pub proof fn lemma_sqrt_floor(n: int)
    requires
        n >= 0,
    ensures
        sqrt_floor(n) >= 0,
        sqrt_floor(n) * sqrt_floor(n) <= n,
        n < (sqrt_floor(n) + 1) * (sqrt_floor(n) + 1),
        forall|r: int|
            r >= 0 && #[trigger] (r * r) <= n && n < (r + 1) * (r + 1) ==> r == sqrt_floor(n),
    decreases n,
{
    if n == 0 {
        assert(0 >= 0 && 0 * 0 <= n && n < (0 + 1) * (0 + 1)) by (nonlinear_arith)
            requires n == 0;
    } else {
        lemma_sqrt_floor(n - 1);
        let p = sqrt_floor(n - 1);
        if n < (p + 1) * (p + 1) {
            assert(p >= 0 && p * p <= n && n < (p + 1) * (p + 1));
        } else {
            assert(n == (p + 1) * (p + 1));
            assert((p + 1) * (p + 1) < (p + 2) * (p + 2)) by (nonlinear_arith)
                requires p >= 0;
            assert(p + 1 >= 0 && (p + 1) * (p + 1) <= n && n < (p + 2) * (p + 2));
        }
    }
    let s = sqrt_floor(n);
    assert(s >= 0 && s * s <= n && n < (s + 1) * (s + 1));
    assert forall|r: int|
        r >= 0 && #[trigger] (r * r) <= n && n < (r + 1) * (r + 1) implies r == s by {
        if r < s {
            assert((r + 1) * (r + 1) <= s * s) by (nonlinear_arith)
                requires 0 <= r, r < s;
        }
        if s < r {
            assert((s + 1) * (s + 1) <= r * r) by (nonlinear_arith)
                requires 0 <= s, s < r;
        }
    }
}

/// A truncating quotient with a positive divisor never grows in magnitude
/// beyond the magnitude of the numerator, keeps the numerator's sign, and
/// respects scaled bounds.
pub proof fn lemma_qdiv_bounds(a: int, b: int)
    requires
        b > 0,
    ensures
        a >= 0 ==> 0 <= qdiv(a, b) <= a,
        a < 0 ==> a <= qdiv(a, b) <= 0,
{
    if a >= 0 {
        lemma_div_pos_is_pos(a, b);
        lemma_div_nonincreasing(a, b);
    } else {
        lemma_div_pos_is_pos(-a, b);
        lemma_div_nonincreasing(-a, b);
    }
}

/// If `|a| <= m * b` then `|qdiv(a, b)| <= m`.
pub proof fn lemma_qdiv_scaled_bound(a: int, b: int, m: int)
    requires
        b > 0,
        m >= 0,
        -(m * b) <= a <= m * b,
    ensures
        -m <= qdiv(a, b) <= m,
{
    assert(m * b == b * m) by (nonlinear_arith);
    if a >= 0 {
        lemma_div_pos_is_pos(a, b);
        vstd::arithmetic::div_mod::lemma_multiply_divide_le(a, b, m);
    } else {
        lemma_div_pos_is_pos(-a, b);
        vstd::arithmetic::div_mod::lemma_multiply_divide_le(-a, b, m);
    }
}

/// The product of two machine words always fits in a double word.
pub fn mul_wide(a: i64, b: i64) -> (r: i128)
    ensures
        r == (a as int) * (b as int),
{
    proof {
        assert(-0x4000_0000_0000_0000_0000_0000_0000_0000int <= (a as int) * (b as int)
            <= 0x4000_0000_0000_0000_0000_0000_0000_0000int) by (nonlinear_arith)
            requires
                -0x8000_0000_0000_0000int <= a as int <= 0x7FFF_FFFF_FFFF_FFFFint,
                -0x8000_0000_0000_0000int <= b as int <= 0x7FFF_FFFF_FFFF_FFFFint;
    }
    (a as i128) * (b as i128)
}

/// A dot- or cross-product of machine-word vectors fits in a double word as
/// long as the first vector stays clear of the smallest machine word.
pub proof fn lemma_pair_product_fits(x1: int, y1: int, x2: int, y2: int)
    requires
        -0x7FFF_FFFF_FFFF_FFFF <= x1 <= 0x7FFF_FFFF_FFFF_FFFF,
        -0x7FFF_FFFF_FFFF_FFFF <= y1 <= 0x7FFF_FFFF_FFFF_FFFF,
        -0x8000_0000_0000_0000 <= x2 <= 0x7FFF_FFFF_FFFF_FFFF,
        -0x8000_0000_0000_0000 <= y2 <= 0x7FFF_FFFF_FFFF_FFFF,
    ensures
        -0x7FFF_FFFF_FFFF_FFFF_0000_0000_0000_0000 <= x1 * x2 + y1 * y2
            <= 0x7FFF_FFFF_FFFF_FFFF_0000_0000_0000_0000,
        -0x7FFF_FFFF_FFFF_FFFF_0000_0000_0000_0000 <= x1 * y2 - y1 * x2
            <= 0x7FFF_FFFF_FFFF_FFFF_0000_0000_0000_0000,
{
    assert(-0x3FFF_FFFF_FFFF_FFFF_8000_0000_0000_0000 <= x1 * x2
        <= 0x3FFF_FFFF_FFFF_FFFF_8000_0000_0000_0000) by (nonlinear_arith)
        requires
            -0x7FFF_FFFF_FFFF_FFFF <= x1 <= 0x7FFF_FFFF_FFFF_FFFF,
            -0x8000_0000_0000_0000 <= x2 <= 0x8000_0000_0000_0000;
    assert(-0x3FFF_FFFF_FFFF_FFFF_8000_0000_0000_0000 <= y1 * y2
        <= 0x3FFF_FFFF_FFFF_FFFF_8000_0000_0000_0000) by (nonlinear_arith)
        requires
            -0x7FFF_FFFF_FFFF_FFFF <= y1 <= 0x7FFF_FFFF_FFFF_FFFF,
            -0x8000_0000_0000_0000 <= y2 <= 0x8000_0000_0000_0000;
    assert(-0x3FFF_FFFF_FFFF_FFFF_8000_0000_0000_0000 <= x1 * y2
        <= 0x3FFF_FFFF_FFFF_FFFF_8000_0000_0000_0000) by (nonlinear_arith)
        requires
            -0x7FFF_FFFF_FFFF_FFFF <= x1 <= 0x7FFF_FFFF_FFFF_FFFF,
            -0x8000_0000_0000_0000 <= y2 <= 0x8000_0000_0000_0000;
    assert(-0x3FFF_FFFF_FFFF_FFFF_8000_0000_0000_0000 <= y1 * x2
        <= 0x3FFF_FFFF_FFFF_FFFF_8000_0000_0000_0000) by (nonlinear_arith)
        requires
            -0x7FFF_FFFF_FFFF_FFFF <= y1 <= 0x7FFF_FFFF_FFFF_FFFF,
            -0x8000_0000_0000_0000 <= x2 <= 0x8000_0000_0000_0000;
}

/// Truncating division on wide integers; the divisor must be positive.
pub fn div_q(a: i128, b: i128) -> (r: i128)
    requires
        b > 0,
        a != i128::MIN,
    ensures
        r == qdiv(a as int, b as int),
{
    proof {
        lemma_qdiv_bounds(a as int, b as int);
    }
    if a >= 0 {
        let q: u128 = (a as u128) / (b as u128);
        q as i128
    } else {
        let q: u128 = ((-a) as u128) / (b as u128);
        -(q as i128)
    }
}

/// Truncating division on wide integers for a divisor of either sign.
pub fn div_q2(a: i128, b: i128) -> (r: i128)
    requires
        b != 0,
        a != i128::MIN,
        b != i128::MIN,
    ensures
        r == qdiv2(a as int, b as int),
{
    if b > 0 {
        div_q(a, b)
    } else {
        div_q(-a, -b)
    }
}

/// The square root rounded down, by bisection.
pub fn isqrt(n: u128) -> (r: u64)
    ensures
        r == sqrt_floor(n as int),
{
    let mut lo: u128 = 0;
    let mut hi: u128 = 0x1_0000_0000_0000_0000;
    proof {
        assert((0x1_0000_0000_0000_0000int) * (0x1_0000_0000_0000_0000int) > n as int)
            by (nonlinear_arith)
            requires n <= u128::MAX;
    }
    while lo + 1 < hi
        invariant
            0 <= lo < hi <= 0x1_0000_0000_0000_0000,
            (lo as int) * (lo as int) <= n as int,
            (n as int) < (hi as int) * (hi as int),
        decreases hi - lo,
    {
        let mid = lo + (hi - lo) / 2;
        proof {
            assert((mid as int) * (mid as int) < 0x1_0000_0000_0000_0000int
                * 0x1_0000_0000_0000_0000int) by (nonlinear_arith)
                requires 0 <= (mid as int) && (mid as int) < 0x1_0000_0000_0000_0000int;
        }
        if mid * mid <= n {
            lo = mid;
        } else {
            hi = mid;
        }
    }
    proof {
        lemma_sqrt_floor(n as int);
        assert(lo as int >= 0 && (lo as int) * (lo as int) <= n as int && (n as int) < ((lo as int)
            + 1) * ((lo as int) + 1));
    }
    lo as u64
}

/// Clamp a fixed-point value into `[min, max]`.
pub fn clampf(value: i64, min: i64, max: i64) -> (r: i64)
    requires
        min <= max,
    ensures
        r == clampf_spec(value as int, min as int, max as int),
{
    if value < min {
        min
    } else if value > max {
        max
    } else {
        value
    }
}

/// What `clampf` returns.
pub open spec fn clampf_spec(value: int, min: int, max: int) -> int {
    if value < min {
        min
    } else if value > max {
        max
    } else {
        value
    }
}

} // verus!
