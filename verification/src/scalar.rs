//! Scalars of the fixed-point grid, and the integer square root.
//!
//! Lengths are counted in raw steps: the raw value `c` stands for the length
//! `c / UNIT`. A product of two raw values therefore stands for
//! `c1 * c2 / (UNIT * UNIT)`, and a quotient of such a product by a raw value is a
//! raw value again.

use vstd::prelude::*;

verus! {

/// Raw steps per unit of length.
pub const UNIT: i64 = 1_000_000;

/// Largest magnitude of a raw coordinate.
pub const MAX_COORD: i64 = 1_000_000_000;

/// Whether `c` is a raw coordinate that the grid can hold.
pub open spec fn coord_in_range(c: int) -> bool {
    -MAX_COORD <= c <= MAX_COORD
}

/// Whether a product of two raw values stands for a quantity of magnitude
/// below one raw step, the tolerance of every near-equality test of this crate.
///
/// The product `p` stands for `p / (UNIT * UNIT)` and one raw step for
/// `1 / UNIT`, so the test is `|p| < UNIT`.
pub open spec fn near_zero(p: int) -> bool {
    -UNIT < p < UNIT
}

/// The magnitude of `c`.
pub open spec fn magnitude(c: int) -> int {
    if c < 0 {
        -c
    } else {
        c
    }
}

/// Whether `r` is the square root of `n`, rounded down.
pub open spec fn is_floor_sqrt(n: int, r: int) -> bool {
    0 <= r && r * r <= n < (r + 1) * (r + 1)
}

/// The square root of `n`, rounded down. Meaningful for `n >= 0`.
pub open spec fn floor_sqrt(n: int) -> int {
    choose|r: int| is_floor_sqrt(n, r)
}

/// At most one number is the rounded-down square root of `n`, so a number that
/// passes `is_floor_sqrt` is `floor_sqrt(n)`.
pub proof fn lemma_floor_sqrt_unique(n: int, r: int)
    requires
        is_floor_sqrt(n, r),
    ensures
        floor_sqrt(n) == r,
{
    let s = floor_sqrt(n);
    assert(is_floor_sqrt(n, s));
    assert(s < r + 1) by (nonlinear_arith)
        requires
            0 <= s,
            0 <= r,
            s * s < (r + 1) * (r + 1),
    ;
    assert(r < s + 1) by (nonlinear_arith)
        requires
            0 <= s,
            0 <= r,
            r * r < (s + 1) * (s + 1),
    ;
}

/// A rounded-down square root is no larger than a bound whose square reaches `n`.
pub proof fn lemma_floor_sqrt_bound(n: int, bound: int)
    requires
        0 <= n <= bound * bound,
        0 <= bound,
    ensures
        0 <= floor_sqrt(n) <= bound,
        is_floor_sqrt(n, floor_sqrt(n)),
{
    lemma_floor_sqrt_exists(n);
    let s = floor_sqrt(n);
    assert(s <= bound) by (nonlinear_arith)
        requires
            0 <= s,
            0 <= bound,
            s * s <= bound * bound,
    ;
}

/// Every natural number has a rounded-down square root.
pub proof fn lemma_floor_sqrt_exists(n: int)
    requires
        0 <= n,
    ensures
        is_floor_sqrt(n, floor_sqrt(n)),
    decreases n,
{
    if n == 0 {
        assert(is_floor_sqrt(0, 0));
    } else {
        lemma_floor_sqrt_exists(n - 1);
        let r = floor_sqrt(n - 1);
        if (r + 1) * (r + 1) <= n {
            assert((r + 1) * (r + 1) == n);
            assert(n < (r + 2) * (r + 2)) by (nonlinear_arith)
                requires
                    0 <= r,
                    (r + 1) * (r + 1) == n,
            ;
            assert(is_floor_sqrt(n, r + 1));
        } else {
            assert(is_floor_sqrt(n, r));
        }
    }
}

/// The quotient of the raw product `d` by the square root of the raw square `ll`,
/// rounded toward zero: a raw value. Meaningful for `ll > 0`.
///
/// For `d >= 0` it is the largest `k` with `k * k * ll <= d * d`, since the
/// rounded-down root of a quotient is the rounded-down root of the
/// rounded-down quotient.
pub open spec fn div_by_sqrt(d: int, ll: int) -> int {
    if d >= 0 {
        floor_sqrt((d * d) / ll)
    } else {
        -floor_sqrt((d * d) / ll)
    }
}

/// Computes the square root of `n`, rounded down.
pub fn isqrt(n: u128) -> (r: u64)
    ensures
        is_floor_sqrt(n as int, r as int),
        r == floor_sqrt(n as int),
{
    let mut lo: u128 = 0;
    let mut hi: u128 = 0x1_0000_0000_0000_0000;
    while hi - lo > 1
        invariant
            lo < hi <= 0x1_0000_0000_0000_0000,
            lo * lo <= n < hi * hi,
        decreases hi - lo,
    {
        let mid: u128 = lo + (hi - lo) / 2;
        assert(mid * mid <= 0xffff_ffff_ffff_ffff * 0xffff_ffff_ffff_ffff) by (nonlinear_arith)
            requires
                0 <= mid <= 0xffff_ffff_ffff_ffff,
        ;
        if mid * mid <= n {
            lo = mid;
        } else {
            hi = mid;
        }
    }
    proof {
        lemma_floor_sqrt_unique(n as int, lo as int);
    }
    lo as u64
}

} // verus!
