//! Exact integer arithmetic helpers for the fixed-point representation.
//!
//! Real-valued quantities are carried as integers in centi-units: a stored
//! value of `x` stands for the real number `x / 100`. Components are `i32`;
//! arithmetic computes exactly in wide intermediates and saturates back into
//! the component range, and the contracts state both behaviours precisely.

use vstd::prelude::*;

verus! {

/// The value `x` clamped to the range of `i64`.
pub open spec fn sat64(x: int) -> int {
    if x > i64::MAX as int {
        i64::MAX as int
    } else if x < i64::MIN as int {
        i64::MIN as int
    } else {
        x
    }
}

/// The value `x` clamped to the range of `i32`.
pub open spec fn sat32(x: int) -> int {
    if x > i32::MAX as int {
        i32::MAX as int
    } else if x < i32::MIN as int {
        i32::MIN as int
    } else {
        x
    }
}

/// Clamps a wide value into `i64`.
pub fn sat_to_i64(x: i128) -> (r: i64)
    ensures
        r as int == sat64(x as int),
{
    if x > i64::MAX as i128 {
        i64::MAX
    } else if x < i64::MIN as i128 {
        i64::MIN
    } else {
        x as i64
    }
}

/// Clamps a wide value into `i32`.
pub fn sat_to_i32(x: i128) -> (r: i32)
    ensures
        r as int == sat32(x as int),
{
    if x > i32::MAX as i128 {
        i32::MAX
    } else if x < i32::MIN as i128 {
        i32::MIN
    } else {
        x as i32
    }
}

/// The value `x` clamped to the range of `u32`.
pub open spec fn sat_u32(x: int) -> int {
    if x > u32::MAX as int {
        u32::MAX as int
    } else if x < 0 {
        0
    } else {
        x
    }
}

/// Clamps a wide value into `u32`.
pub fn sat_to_u32(x: u64) -> (r: u32)
    ensures
        r as int == sat_u32(x as int),
{
    if x > u32::MAX as u64 {
        u32::MAX
    } else {
        x as u32
    }
}

/// Floor division of a (possibly negative) value by a positive divisor,
/// matching the mathematical `/` on `int`.
pub fn floor_div(x: i128, d: i128) -> (r: i128)
    requires
        1 <= d,
        -0x4000_0000_0000_0000_0000_0000_0000_0000i128 < x,
    ensures
        r == x as int / d as int,
{
    if x >= 0 {
        x / d
    } else {
        let neg: i128 = -x;
        let q: i128 = neg / d;
        let rem: i128 = neg % d;
        if rem == 0 {
            proof {
                vstd::arithmetic::div_mod::lemma_fundamental_div_mod(neg as int, d as int);
                assert(x as int == (-(q as int)) * d as int + 0) by (nonlinear_arith)
                    requires
                        neg as int == d as int * (q as int) + rem as int,
                        rem == 0,
                        x as int == -(neg as int);
                vstd::arithmetic::div_mod::lemma_fundamental_div_mod_converse(
                    x as int, d as int, -(q as int), 0);
            }
            -q
        } else {
            proof {
                vstd::arithmetic::div_mod::lemma_fundamental_div_mod(neg as int, d as int);
                assert(x as int == (-(q as int) - 1) * d as int + (d as int - rem as int))
                    by (nonlinear_arith)
                    requires
                        neg as int == d as int * (q as int) + rem as int,
                        x as int == -(neg as int);
                vstd::arithmetic::div_mod::lemma_fundamental_div_mod_converse(
                    x as int, d as int, -(q as int) - 1, d as int - rem as int);
            }
            -q - 1
        }
    }
}

/// The integer square root: the largest `r` with `r * r <= x`.
pub open spec fn is_sqrt(x: int, r: int) -> bool {
    0 <= r && r * r <= x && x < (r + 1) * (r + 1)
}

/// Two integer square roots of the same value are equal.
pub proof fn lemma_sqrt_unique(x: int, a: int, b: int)
    requires
        is_sqrt(x, a),
        is_sqrt(x, b),
    ensures
        a == b,
{
    if a < b {
        assert((a + 1) * (a + 1) <= b * b) by (nonlinear_arith)
            requires 0 <= a, 0 <= b, a < b;
        assert(false);
    }
    if b < a {
        assert((b + 1) * (b + 1) <= a * a) by (nonlinear_arith)
            requires 0 <= a, 0 <= b, b < a;
        assert(false);
    }
}

/// Computes the integer square root by bisection.
pub fn isqrt(x: u128) -> (r: u128)
    ensures
        is_sqrt(x as int, r as int),
        r <= 0xFFFF_FFFF_FFFF_FFFFu128,
{
    // The answer always lies below 2^64, since (2^64)^2 exceeds u128::MAX.
    let mut lo: u128 = 0;
    let mut hi: u128 = 0x1_0000_0000_0000_0000;
    proof {
        assert((0x1_0000_0000_0000_0000u128 as int) * (0x1_0000_0000_0000_0000u128 as int)
            > u128::MAX as int) by (nonlinear_arith);
    }
    while lo + 1 < hi
        invariant
            lo < hi,
            hi <= 0x1_0000_0000_0000_0000,
            (lo as int) * (lo as int) <= x as int,
            (x as int) < (hi as int) * (hi as int),
        decreases hi - lo,
    {
        let mid: u128 = lo + (hi - lo) / 2;
        proof {
            assert((mid as int) * (mid as int) <= u128::MAX as int) by (nonlinear_arith)
                requires mid <= 0xFFFF_FFFF_FFFF_FFFFu128;
        }
        if mid * mid <= x {
            lo = mid;
        } else {
            hi = mid;
        }
    }
    lo
}

} // verus!
