//! Arithmetic helpers of the engine: the integer square root used at first
//! liquidity provision, and saturating 128-bit operations used by the
//! time-weighted price accumulators.

use vstd::prelude::*;

verus! {

use vstd::arithmetic::div_mod::{
    lemma_div_is_ordered, lemma_fundamental_div_mod, lemma_mod_bound,
};

/// `r` is `floor(sqrt(y))`.
pub open spec fn is_floor_sqrt(y: int, r: int) -> bool {
    &&& 0 <= r
    &&& r * r <= y
    &&& y < (r + 1) * (r + 1)
}

/// Addition on `u128` clamped at the top of the range.
pub open spec fn sat_add(a: int, b: int) -> int {
    if a + b > u128::MAX { u128::MAX as int } else { a + b }
}

/// Multiplication on `u128` clamped at the top of the range.
pub open spec fn sat_mul(a: int, b: int) -> int {
    if a * b > u128::MAX { u128::MAX as int } else { a * b }
}

/// Saturating multiplication: `sat_mul` made executable.
pub fn saturating_mul(a: u128, b: u128) -> (r: u128)
    ensures
        r as int == sat_mul(a as int, b as int),
{
    match a.checked_mul(b) {
        Some(p) => p,
        None => u128::MAX,
    }
}

/// `floor(sqrt(y))` as a specification-level function, built up one step
/// at a time.
pub open spec fn floor_sqrt(y: int) -> int
    decreases y,
{
    if y <= 0 {
        0
    } else {
        let below = floor_sqrt(y - 1);
        if (below + 1) * (below + 1) <= y {
            below + 1
        } else {
            below
        }
    }
}

/// `floor_sqrt` satisfies the floor-square-root characterization.
pub proof fn lemma_floor_sqrt_is_floor(y: int)
    requires
        0 <= y,
    ensures
        is_floor_sqrt(y, floor_sqrt(y)),
    decreases y,
{
    if y > 0 {
        lemma_floor_sqrt_is_floor(y - 1);
        let below = floor_sqrt(y - 1);
        if (below + 1) * (below + 1) <= y {
            assert(y < (below + 2) * (below + 2)) by (nonlinear_arith)
                requires
                    0 <= below,
                    y - 1 < (below + 1) * (below + 1),
                    (below + 1) * (below + 1) <= y;
        }
    }
}

/// The floor square root is unique: any `r` satisfying the
/// characterization equals `floor_sqrt(y)`.
pub proof fn lemma_floor_sqrt_unique(y: int, r: int)
    requires
        0 <= y,
        is_floor_sqrt(y, r),
    ensures
        r == floor_sqrt(y),
{
    lemma_floor_sqrt_is_floor(y);
    let f = floor_sqrt(y);
    assert(r == f) by (nonlinear_arith)
        requires
            0 <= r,
            0 <= f,
            r * r <= y,
            y < (r + 1) * (r + 1),
            f * f <= y,
            y < (f + 1) * (f + 1);
}

/// Scaling `b` by the ratio `a / c` with `a <= c` cannot exceed `b`.
pub proof fn lemma_mul_div_le(a: int, b: int, c: int)
    requires
        0 <= a <= c,
        0 < c,
        0 <= b,
    ensures
        a * b / c <= b,
{
    assert(a * b <= c * b) by (nonlinear_arith)
        requires 0 <= a <= c, 0 <= b;
    lemma_div_is_ordered(a * b, c * b, c);
    vstd::arithmetic::div_mod::lemma_div_multiples_vanish(b, c);
    assert(c * b / c == b);
}

/// A quotient at least as large as the divisor forces `x * x <= y`.
proof fn lemma_quotient_bounds_square(y: int, x: int)
    requires
        1 <= x,
        0 <= y,
        y / x >= x,
    ensures
        x * x <= y,
{
    lemma_fundamental_div_mod(y, x);
    lemma_mod_bound(y, x);
    assert(x * x <= x * (y / x)) by (nonlinear_arith)
        requires 1 <= x, y / x >= x;
}

/// One Newton step from any positive `x` lands at or above the true root:
/// with `q == y / x` and `m == (q + x) / 2`, we get `(m + 1)^2 > y`.
proof fn lemma_newton_step_above_root(y: int, x: int, q: int, m: int)
    requires
        1 <= x,
        0 <= y,
        q == y / x,
        m == (q + x) / 2,
    ensures
        (m + 1) * (m + 1) > y,
{
    lemma_fundamental_div_mod(y, x);
    lemma_mod_bound(y, x);
    assert(y < (q + 1) * x) by (nonlinear_arith)
        requires y == x * q + y % x, y % x < x;
    lemma_fundamental_div_mod(q + x, 2);
    lemma_mod_bound(q + x, 2);
    assert(2 * (m + 1) >= q + x + 1);
    // AM-GM: (q + 1 + x)^2 >= 4 * (q + 1) * x, so squaring 2*(m + 1)
    // stays above 4 * (q + 1) * x > 4 * y.
    assert((m + 1) * (m + 1) > y) by (nonlinear_arith)
        requires
            2 * (m + 1) >= q + x + 1,
            0 <= q,
            1 <= x,
            y < (q + 1) * x;
}

/// Integer square root, rounded down, by Newton's-method descent.
///
/// Exact for every input, including the 0..=3 boundary cases.
pub fn sqrt(y: u128) -> (r: u128)
    ensures
        is_floor_sqrt(y as int, r as int),
{
    if y == 0 {
        proof { assert(is_floor_sqrt(0, 0)); }
        0
    } else if y <= 3 {
        proof { assert(is_floor_sqrt(y as int, 1)); }
        1
    } else {
        let mut x: u128 = y / 2 + 1;
        proof {
            lemma_fundamental_div_mod(y as int, 2);
            lemma_mod_bound(y as int, 2);
            assert((x as int + 1) * (x as int + 1) > y as int) by (nonlinear_arith)
                requires 2 * (x as int) >= y as int + 1;
        }
        while y / x < x
            invariant
                1 <= x,
                x as int <= y as int,
                (x as int + 1) * (x as int + 1) > y as int,
            decreases x,
        {
            let q = y / x;
            let next = q + (x - q) / 2;
            proof {
                lemma_div_is_ordered(x as int, y as int, x as int);
                lemma_fundamental_div_mod((x - q) as int, 2);
                lemma_mod_bound((x - q) as int, 2);
                assert(next as int == (q as int + x as int) / 2) by {
                    lemma_fundamental_div_mod((q + x) as int, 2);
                    lemma_mod_bound((q + x) as int, 2);
                };
                lemma_newton_step_above_root(y as int, x as int, q as int, next as int);
            }
            x = next;
        }
        proof {
            lemma_quotient_bounds_square(y as int, x as int);
        }
        x
    }
}

} // verus!
