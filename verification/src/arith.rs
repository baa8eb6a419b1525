//! Whole-number arithmetic that the geometry rests on: rounded quotients, the
//! square root rounded up, and bounds on products of coordinates.

use vstd::prelude::*;

verus! {

/// The magnitude of `c`.
pub open spec fn magnitude(c: int) -> int {
    if c >= 0 {
        c
    } else {
        -c
    }
}

/// `n / d` rounded to the nearest whole number, halves away from zero.
pub open spec fn rounded_quotient(n: int, d: int) -> int {
    if n >= 0 {
        (n + d / 2) / d
    } else {
        -((-n + d / 2) / d)
    }
}

/// `n / d` rounded towards zero.
pub open spec fn truncated_quotient(n: int, d: int) -> int {
    if n >= 0 {
        n / d
    } else {
        -((-n) / d)
    }
}

/// Whether `r` is the least whole number, not negative, whose square is at
/// least `n`.
pub open spec fn is_ceil_sqrt(n: int, r: int) -> bool {
    r >= 0 && r * r >= n && (r == 0 || (r - 1) * (r - 1) < n)
}

/// The square root of `n`, rounded up.
pub open spec fn ceil_sqrt(n: int) -> int {
    choose|r: int| is_ceil_sqrt(n, r)
}

/// Squares grow with their base.
proof fn lemma_square_monotonic(a: int, b: int)
    by (nonlinear_arith)
    requires
        0 <= a <= b,
    ensures
        a * a <= b * b,
{
}

/// At most one number is the rounded-up square root of `n`.
pub proof fn lemma_ceil_sqrt_unique(n: int, r1: int, r2: int)
    requires
        is_ceil_sqrt(n, r1),
        is_ceil_sqrt(n, r2),
    ensures
        r1 == r2,
{
    if r1 < r2 {
        lemma_square_monotonic(r1, r2 - 1);
    } else if r2 < r1 {
        lemma_square_monotonic(r2, r1 - 1);
    }
}

/// Every number has a rounded-up square root.
pub proof fn lemma_ceil_sqrt_exists(n: int)
    ensures
        is_ceil_sqrt(n, ceil_sqrt(n)),
    decreases n,
{
    if n <= 0 {
        assert(is_ceil_sqrt(n, 0));
    } else {
        lemma_ceil_sqrt_exists(n - 1);
        let r = ceil_sqrt(n - 1);
        if r * r >= n {
            assert(is_ceil_sqrt(n, r));
        } else {
            assert((r + 1) * (r + 1) >= n) by (nonlinear_arith)
                requires
                    r >= 0,
                    r * r >= n - 1,
            ;
            assert(is_ceil_sqrt(n, r + 1));
        }
    }
}

/// The square of a number below 2^32 + 1 stays within 65 bits.
proof fn lemma_square_bound(m: int)
    by (nonlinear_arith)
    requires
        0 <= m <= 0x1_0000_0000,
    ensures
        0 <= m * m <= 0x1_0000_0000_0000_0000,
{
}

/// The square root of `n`, rounded up, by bisection.
pub fn root_ceiling(n: u64) -> (r: u64)
    ensures
        r == ceil_sqrt(n as int),
        is_ceil_sqrt(n as int, r as int),
        r <= 0x1_0000_0000,
{
    if n == 0 {
        proof {
            lemma_ceil_sqrt_exists(0);
            lemma_ceil_sqrt_unique(0, 0, ceil_sqrt(0));
        }
        return 0;
    }
    let mut lo: u64 = 0;
    let mut hi: u64 = 0x1_0000_0000;
    proof {
        lemma_square_bound(hi as int);
    }
    while hi - lo > 1
        invariant
            lo < hi <= 0x1_0000_0000,
            lo * lo < n <= hi * hi,
        decreases hi - lo,
    {
        let mid: u64 = lo + (hi - lo) / 2;
        proof {
            lemma_square_bound(mid as int);
        }
        if (mid as u128) * (mid as u128) >= n as u128 {
            hi = mid;
        } else {
            lo = mid;
        }
    }
    proof {
        lemma_ceil_sqrt_exists(n as int);
        lemma_ceil_sqrt_unique(n as int, hi as int, ceil_sqrt(n as int));
    }
    hi
}

/// The product of two coordinate differences stays within 65 bits.
pub proof fn lemma_product_of_differences(p: int, q: int)
    by (nonlinear_arith)
    requires
        -0x1_0000_0000 < p < 0x1_0000_0000,
        -0x1_0000_0000 < q < 0x1_0000_0000,
    ensures
        -0x1_0000_0000_0000_0000 < p * q < 0x1_0000_0000_0000_0000,
{
}

/// The square of a coordinate stays within 62 bits.
pub proof fn lemma_coordinate_square(c: int)
    by (nonlinear_arith)
    requires
        -0x8000_0000 <= c <= 0x8000_0000,
    ensures
        0 <= c * c <= 0x4000_0000_0000_0000,
{
}

/// A product of a coordinate with a limit stays within 62 bits.
pub proof fn lemma_coordinate_product(c: int, limit: int)
    by (nonlinear_arith)
    requires
        -0x8000_0000 <= c <= 0x8000_0000,
        0 <= limit <= 0x8000_0000,
    ensures
        -0x4000_0000_0000_0000 <= c * limit <= 0x4000_0000_0000_0000,
{
}

/// A quotient rounded towards zero, times its divisor, is no larger in
/// magnitude than the numerator; its sign is the numerator's.
pub proof fn lemma_truncated_quotient_bound(n: int, d: int)
    by (nonlinear_arith)
    requires
        d > 0,
    ensures
        magnitude(truncated_quotient(n, d)) * d <= magnitude(n),
        magnitude(truncated_quotient(n, d)) == magnitude(n) / d,
        n >= 0 ==> truncated_quotient(n, d) >= 0,
        n <= 0 ==> truncated_quotient(n, d) <= 0,
{
}

/// `n / d` rounded towards zero.
pub fn divide_towards_zero(n: i64, d: i64) -> (q: i64)
    requires
        d > 0,
    ensures
        q == truncated_quotient(n as int, d as int),
{
    n / d
}

} // verus!
