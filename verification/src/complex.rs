//! An exact complex number in fixed point.
//!
//! `Complex` carries real and imaginary parts as `i32` values in
//! centi-units. Every operation computes exactly in a wide intermediate and
//! saturates into the component range; the contracts state the result
//! through `sat32`.

use vstd::prelude::*;
use crate::numeric::{floor_div, isqrt, is_sqrt, sat32, sat_to_i32};

verus! {

/// A complex value; both components are in centi-units.
#[derive(Clone, Copy, Debug, PartialEq, Eq, Structural)]
pub struct Complex {
    pub re: i32,
    pub im: i32,
}

/// The saturating componentwise sum of two complex values.
pub open spec fn spec_add(a: Complex, b: Complex) -> Complex {
    Complex { re: sat32(a.re + b.re) as i32, im: sat32(a.im + b.im) as i32 }
}

/// The saturating componentwise negation of a complex value.
pub open spec fn spec_neg(a: Complex) -> Complex {
    Complex { re: sat32(-a.re) as i32, im: sat32(-a.im) as i32 }
}

/// The conjugate of a complex value.
pub open spec fn spec_conj(a: Complex) -> Complex {
    Complex { re: a.re, im: sat32(-a.im) as i32 }
}

/// The complex product rescaled to centi-units, saturating at the component
/// range.
pub open spec fn spec_mul(a: Complex, b: Complex) -> Complex {
    Complex {
        re: sat32((a.re * b.re - a.im * b.im) / 100) as i32,
        im: sat32((a.re * b.im + a.im * b.re) / 100) as i32,
    }
}

/// Both components scaled by `factor` centi-units with floor division,
/// saturating at the component range.
pub open spec fn spec_scaled(a: Complex, factor: int) -> Complex {
    Complex {
        re: sat32((a.re * factor) / 100) as i32,
        im: sat32((a.im * factor) / 100) as i32,
    }
}

/// An exact quarter turn counterclockwise.
pub open spec fn spec_rot(a: Complex) -> Complex {
    Complex { re: sat32(-a.im) as i32, im: a.re }
}

/// `n` exact quarter turns counterclockwise.
pub open spec fn spec_rot_n(a: Complex, n: nat) -> Complex
    decreases n,
{
    if n == 0 {
        a
    } else {
        spec_rot(spec_rot_n(a, (n - 1) as nat))
    }
}

/// Scaling by one whole unit changes nothing: the rescaling division is by
/// an exact multiple.
pub proof fn lemma_scaled_by_one_unit(a: Complex)
    ensures
        spec_scaled(a, 100) == a,
{
    assert((a.re as int * 100) / 100 == a.re as int) by {
        vstd::arithmetic::div_mod::lemma_div_multiples_vanish(a.re as int, 100);
        assert(100 * a.re as int == a.re as int * 100) by (nonlinear_arith);
    }
    assert((a.im as int * 100) / 100 == a.im as int) by {
        vstd::arithmetic::div_mod::lemma_div_multiples_vanish(a.im as int, 100);
        assert(100 * a.im as int == a.im as int * 100) by (nonlinear_arith);
    }
}

impl Complex {
    pub fn new(re: i32, im: i32) -> (r: Complex)
        ensures
            r.re == re,
            r.im == im,
    {
        Complex { re, im }
    }

    /// The additive identity.
    pub fn zero() -> (r: Complex)
        ensures
            r == (Complex { re: 0, im: 0 }),
    {
        Complex { re: 0, im: 0 }
    }

    /// Componentwise addition, saturating at the component range.
    pub fn add(self, other: Complex) -> (r: Complex)
        ensures
            r == spec_add(self, other),
    {
        Complex {
            re: sat_to_i32(self.re as i128 + other.re as i128),
            im: sat_to_i32(self.im as i128 + other.im as i128),
        }
    }

    /// Componentwise negation, saturating at the component range.
    pub fn neg(self) -> (r: Complex)
        ensures
            r == spec_neg(self),
    {
        Complex {
            re: sat_to_i32(-(self.re as i128)),
            im: sat_to_i32(-(self.im as i128)),
        }
    }

    /// The complex conjugate, saturating at the component range.
    pub fn conj(self) -> (r: Complex)
        ensures
            r == spec_conj(self),
    {
        Complex { re: self.re, im: sat_to_i32(-(self.im as i128)) }
    }

    /// The complex product, rescaled to centi-units by floor division and
    /// saturated at the component range.
    pub fn mul(self, other: Complex) -> (r: Complex)
        ensures
            r == spec_mul(self, other),
    {
        proof {
            lemma_i32_product_fits(self.re as int, other.re as int);
            lemma_i32_product_fits(self.im as int, other.im as int);
            lemma_i32_product_fits(self.re as int, other.im as int);
            lemma_i32_product_fits(self.im as int, other.re as int);
        }
        let re_num: i128 = self.re as i128 * other.re as i128 - self.im as i128 * other.im as i128;
        let im_num: i128 = self.re as i128 * other.im as i128 + self.im as i128 * other.re as i128;
        Complex {
            re: sat_to_i32(floor_div(re_num, 100)),
            im: sat_to_i32(floor_div(im_num, 100)),
        }
    }

    /// The squared norm, exact.
    pub fn norm_sq(self) -> (r: u64)
        ensures
            r == self.re * self.re + self.im * self.im,
    {
        proof {
            lemma_i32_square_range(self.re as int);
            lemma_i32_square_range(self.im as int);
        }
        let rr: i128 = self.re as i128 * self.re as i128;
        let ii: i128 = self.im as i128 * self.im as i128;
        (rr + ii) as u64
    }

    /// The norm in centi-units: the integer square root of the squared norm.
    pub fn norm(self) -> (r: u32)
        ensures
            is_sqrt((self.re * self.re + self.im * self.im) as int, r as int),
    {
        let sq: u64 = self.norm_sq();
        let root: u128 = isqrt(sq as u128);
        proof {
            lemma_i32_square_range(self.re as int);
            lemma_i32_square_range(self.im as int);
            lemma_sqrt_below(sq as int, root as int);
        }
        root as u32
    }

    /// The amplitude in centi-units, as the executable form of `amp_of`.
    pub fn amp(self) -> (r: u32)
        ensures
            r == amp_of(self),
    {
        let n: u32 = self.norm();
        proof {
            lemma_amp_is_witness(self, n as int);
        }
        n
    }

    /// The phase angle, as the executable form of `phase_of`.
    pub fn phase(self) -> (r: i32)
        ensures
            r == phase_of(self),
    {
        if self.re == 0 && self.im == 0 {
            return 0;
        }
        let a: i64 = if self.re >= 0 { self.re as i64 } else { -(self.re as i64) };
        let b: i64 = if self.im >= 0 { self.im as i64 } else { -(self.im as i64) };
        proof {
            vstd::arithmetic::div_mod::lemma_div_is_ordered(
                100 * (b as int), 100 * (a as int + b as int), a as int + b as int);
            vstd::arithmetic::div_mod::lemma_div_by_multiple(100, a as int + b as int);
            vstd::arithmetic::div_mod::lemma_div_pos_is_pos(100 * (b as int), a as int + b as int);
        }
        let t: i64 = (100 * b) / (a + b);
        let tq: i32 = t as i32;
        if self.re >= 0 && self.im >= 0 {
            tq
        } else if self.re < 0 && self.im >= 0 {
            200 - tq
        } else if self.re < 0 {
            -(200 - tq)
        } else {
            -tq
        }
    }

    /// An exact quarter turn counterclockwise: `(re, im) -> (-im, re)`.
    pub fn rotated_quarter(self) -> (r: Complex)
        ensures
            r == spec_rot(self),
    {
        Complex { re: sat_to_i32(-(self.im as i128)), im: self.re }
    }

    /// Scales both components by `factor` centi-units with floor division:
    /// the amplitude scales by `factor / 100` and the direction is kept.
    pub fn scaled(self, factor: i32) -> (r: Complex)
        ensures
            r == spec_scaled(self, factor as int),
    {
        proof {
            lemma_i32_product_fits(self.re as int, factor as int);
            lemma_i32_product_fits(self.im as int, factor as int);
        }
        Complex {
            re: sat_to_i32(floor_div(self.re as i128 * factor as i128, 100)),
            im: sat_to_i32(floor_div(self.im as i128 * factor as i128, 100)),
        }
    }
}

/// The amplitude of a complex value: the integer square root of its squared
/// norm, in centi-units.
pub open spec fn amp_of(c: Complex) -> int {
    choose|r: int| #[trigger] is_sqrt(c.re * c.re + c.im * c.im, r)
}

/// Any witness of `is_sqrt` of the squared norm equals `amp_of`.
pub proof fn lemma_amp_is_witness(c: Complex, w: int)
    requires
        is_sqrt(c.re * c.re + c.im * c.im, w),
    ensures
        amp_of(c) == w,
{
    assert(is_sqrt(c.re * c.re + c.im * c.im, amp_of(c)));
    crate::numeric::lemma_sqrt_unique(c.re * c.re + c.im * c.im, w, amp_of(c));
}

/// The amplitude is non-negative and below 2^32.
pub proof fn lemma_amp_range(c: Complex)
    ensures
        0 <= amp_of(c) < 0x1_0000_0000,
{
    lemma_i32_square_range(c.re as int);
    lemma_i32_square_range(c.im as int);
    let sq = c.re * c.re + c.im * c.im;
    lemma_sqrt_exists(sq);
    assert(is_sqrt(sq, amp_of(c)));
    lemma_sqrt_below(sq, amp_of(c));
}

/// Every non-negative value has an integer square root.
proof fn lemma_sqrt_exists(x: int)
    requires
        0 <= x,
    ensures
        exists|r: int| #[trigger] is_sqrt(x, r),
    decreases x,
{
    if x == 0 {
        assert(is_sqrt(0, 0));
    } else {
        lemma_sqrt_exists(x - 1);
        let p = choose|r: int| #[trigger] is_sqrt(x - 1, r);
        if (p + 1) * (p + 1) <= x {
            assert((p + 1 + 1) * (p + 1 + 1) > x) by (nonlinear_arith)
                requires 0 <= p, x - 1 < (p + 1) * (p + 1);
            assert(is_sqrt(x, p + 1));
        } else {
            assert(is_sqrt(x, p));
        }
    }
}

/// The phase of a complex value as an exact piecewise-linear angle measure:
/// one half turn is 200 centi-units, so the range is [-200, 200]. Within a
/// quadrant the angle grows linearly with `|im| / (|re| + |im|)`; the phase
/// of a non-negative real is 0 and the phase of a negative real is 200.
pub open spec fn phase_of(c: Complex) -> int {
    if c.re == 0 && c.im == 0 {
        0
    } else {
        let a = if c.re >= 0 { c.re as int } else { -(c.re as int) };
        let b = if c.im >= 0 { c.im as int } else { -(c.im as int) };
        let t = 100 * b / (a + b);
        if c.re >= 0 && c.im >= 0 {
            t
        } else if c.re < 0 && c.im >= 0 {
            200 - t
        } else if c.re < 0 {
            -(200 - t)
        } else {
            -t
        }
    }
}

/// The phase always lies within one half turn of zero.
pub proof fn lemma_phase_range(c: Complex)
    ensures
        -200 <= phase_of(c) <= 200,
{
    if !(c.re == 0 && c.im == 0) {
        let a = if c.re >= 0 { c.re as int } else { -(c.re as int) };
        let b = if c.im >= 0 { c.im as int } else { -(c.im as int) };
        vstd::arithmetic::div_mod::lemma_div_is_ordered(100 * b, 100 * (a + b), a + b);
        vstd::arithmetic::div_mod::lemma_div_by_multiple(100, a + b);
        vstd::arithmetic::div_mod::lemma_div_pos_is_pos(100 * b, a + b);
    }
}

/// The product of two i32 values stays within 2^62 in magnitude.
pub(crate) proof fn lemma_i32_product_fits(a: int, b: int)
    requires
        i32::MIN <= a <= i32::MAX,
        i32::MIN <= b <= i32::MAX,
    ensures
        -0x4000_0000_0000_0000 <= a * b <= 0x4000_0000_0000_0000,
{
    assert(-0x4000_0000_0000_0000 <= a * b <= 0x4000_0000_0000_0000) by (nonlinear_arith)
        requires
            -0x8000_0000 <= a <= 0x8000_0000,
            -0x8000_0000 <= b <= 0x8000_0000;
}

/// The square of an i32 value is non-negative and stays within 2^62.
pub(crate) proof fn lemma_i32_square_range(a: int)
    requires
        i32::MIN <= a <= i32::MAX,
    ensures
        0 <= a * a <= 0x4000_0000_0000_0000,
{
    lemma_i32_product_fits(a, a);
    assert(0 <= a * a) by (nonlinear_arith);
}

/// A square root of a value of at most 2^63 lies below 2^32.
proof fn lemma_sqrt_below(x: int, r: int)
    requires
        is_sqrt(x, r),
        x <= 0x8000_0000_0000_0000,
    ensures
        r < 0x1_0000_0000,
{
    if r >= 0x1_0000_0000 {
        assert(r * r >= 0x1_0000_0000 * 0x1_0000_0000) by (nonlinear_arith)
            requires r >= 0x1_0000_0000;
        assert(false);
    }
}

} // verus!
