//! A simple 3-dimensional vector with fixed-point components.
//!
//! Components are `i32` values in centi-units; operations compute exactly in
//! a wide intermediate and saturate into the component range.

use vstd::prelude::*;
use crate::complex::{lemma_i32_product_fits, lemma_i32_square_range};
use crate::numeric::{floor_div, isqrt, is_sqrt, sat32, sat_to_i32, lemma_sqrt_unique};
use crate::random::rand_between;

verus! {

/// A 3-dimensional vector; components are in centi-units.
#[derive(Clone, Copy, Debug, PartialEq, Eq, Structural)]
pub struct Vec3 {
    pub x: i32,
    pub y: i32,
    pub z: i32,
}

/// The squared length of a vector, as a mathematical value.
pub open spec fn norm_sq_of(v: Vec3) -> int {
    v.x * v.x + v.y * v.y + v.z * v.z
}

impl Vec3 {
    /// The zero vector.
    pub fn zero() -> (r: Vec3)
        ensures
            r == (Vec3 { x: 0, y: 0, z: 0 }),
    {
        Vec3 { x: 0, y: 0, z: 0 }
    }

    /// The unit vector along the x axis (one whole unit is 100 centi).
    pub fn unit_x() -> (r: Vec3)
        ensures
            r == (Vec3 { x: 100, y: 0, z: 0 }),
    {
        Vec3 { x: 100, y: 0, z: 0 }
    }

    /// The unit vector along the y axis.
    pub fn unit_y() -> (r: Vec3)
        ensures
            r == (Vec3 { x: 0, y: 100, z: 0 }),
    {
        Vec3 { x: 0, y: 100, z: 0 }
    }

    /// The unit vector along the z axis.
    pub fn unit_z() -> (r: Vec3)
        ensures
            r == (Vec3 { x: 0, y: 0, z: 100 }),
    {
        Vec3 { x: 0, y: 0, z: 100 }
    }

    /// The exact dot product; the result is in units of centi squared.
    pub fn dot(self, other: Vec3) -> (r: i128)
        ensures
            r == self.x * other.x + self.y * other.y + self.z * other.z,
    {
        proof {
            lemma_i32_product_fits(self.x as int, other.x as int);
            lemma_i32_product_fits(self.y as int, other.y as int);
            lemma_i32_product_fits(self.z as int, other.z as int);
        }
        self.x as i128 * other.x as i128 + self.y as i128 * other.y as i128
            + self.z as i128 * other.z as i128
    }

    /// The magnitude in centi-units: the integer square root of the squared
    /// length.
    pub fn norm(self) -> (r: u32)
        ensures
            is_sqrt(norm_sq_of(self), r as int),
    {
        proof {
            lemma_i32_square_range(self.x as int);
            lemma_i32_square_range(self.y as int);
            lemma_i32_square_range(self.z as int);
        }
        let sq: i128 = self.x as i128 * self.x as i128 + self.y as i128 * self.y as i128
            + self.z as i128 * self.z as i128;
        let root: u128 = isqrt(sq as u128);
        proof {
            lemma_root_of_three_squares(norm_sq_of(self), root as int);
        }
        root as u32
    }

    /// A vector of the same direction whose magnitude is one whole unit,
    /// or the zero vector when the magnitude is below one centi-unit.
    pub fn normalize(self) -> (r: Vec3)
        ensures
            ({
                let n = spec_norm(self);
                if n == 0 {
                    r == (Vec3 { x: 0, y: 0, z: 0 })
                } else {
                    r.x as int == sat32(self.x * 100 / n)
                        && r.y as int == sat32(self.y * 100 / n)
                        && r.z as int == sat32(self.z * 100 / n)
                }
            }),
    {
        let n: u32 = self.norm();
        proof {
            lemma_norm_is_spec_norm(self, n as int);
        }
        if n == 0 {
            Vec3 { x: 0, y: 0, z: 0 }
        } else {
            Vec3 {
                x: sat_to_i32(floor_div(self.x as i128 * 100, n as i128)),
                y: sat_to_i32(floor_div(self.y as i128 * 100, n as i128)),
                z: sat_to_i32(floor_div(self.z as i128 * 100, n as i128)),
            }
        }
    }

    /// Componentwise addition, saturating at the component range.
    pub fn add(self, other: Vec3) -> (r: Vec3)
        ensures
            r.x as int == sat32(self.x + other.x),
            r.y as int == sat32(self.y + other.y),
            r.z as int == sat32(self.z + other.z),
    {
        Vec3 {
            x: sat_to_i32(self.x as i128 + other.x as i128),
            y: sat_to_i32(self.y as i128 + other.y as i128),
            z: sat_to_i32(self.z as i128 + other.z as i128),
        }
    }

    /// Componentwise subtraction, saturating at the component range.
    pub fn sub(self, other: Vec3) -> (r: Vec3)
        ensures
            r.x as int == sat32(self.x - other.x),
            r.y as int == sat32(self.y - other.y),
            r.z as int == sat32(self.z - other.z),
    {
        Vec3 {
            x: sat_to_i32(self.x as i128 - other.x as i128),
            y: sat_to_i32(self.y as i128 - other.y as i128),
            z: sat_to_i32(self.z as i128 - other.z as i128),
        }
    }

    /// Componentwise negation, saturating at the component range.
    pub fn neg(self) -> (r: Vec3)
        ensures
            r.x as int == sat32(-self.x),
            r.y as int == sat32(-self.y),
            r.z as int == sat32(-self.z),
    {
        Vec3 {
            x: sat_to_i32(-(self.x as i128)),
            y: sat_to_i32(-(self.y as i128)),
            z: sat_to_i32(-(self.z as i128)),
        }
    }

    /// Scales each component by `factor` centi-units with floor division.
    pub fn scaled(self, factor: i32) -> (r: Vec3)
        ensures
            r.x as int == sat32((self.x * factor) / 100),
            r.y as int == sat32((self.y * factor) / 100),
            r.z as int == sat32((self.z * factor) / 100),
    {
        proof {
            lemma_i32_product_fits(self.x as int, factor as int);
            lemma_i32_product_fits(self.y as int, factor as int);
            lemma_i32_product_fits(self.z as int, factor as int);
        }
        Vec3 {
            x: sat_to_i32(floor_div(self.x as i128 * factor as i128, 100)),
            y: sat_to_i32(floor_div(self.y as i128 * factor as i128, 100)),
            z: sat_to_i32(floor_div(self.z as i128 * factor as i128, 100)),
        }
    }

    /// A vector with each component drawn uniformly from one unit below zero
    /// to one unit above (exclusive).
    pub fn random() -> (r: Vec3)
        ensures
            -100 <= r.x < 100,
            -100 <= r.y < 100,
            -100 <= r.z < 100,
    {
        Vec3 {
            x: rand_between(-100, 100) as i32,
            y: rand_between(-100, 100) as i32,
            z: rand_between(-100, 100) as i32,
        }
    }
}

/// The magnitude of a vector as a mathematical value.
pub open spec fn spec_norm(v: Vec3) -> int {
    choose|r: int| #[trigger] is_sqrt(norm_sq_of(v), r)
}

/// The integer square root of a fixed value is unique, so any witness of
/// `is_sqrt` equals `spec_norm`.
pub proof fn lemma_norm_is_spec_norm(v: Vec3, w: int)
    requires
        is_sqrt(norm_sq_of(v), w),
    ensures
        spec_norm(v) == w,
{
    assert(is_sqrt(norm_sq_of(v), spec_norm(v)));
    lemma_sqrt_unique(norm_sq_of(v), w, spec_norm(v));
}

/// A square root of a sum of three component squares lies below 2^32.
proof fn lemma_root_of_three_squares(x: int, r: int)
    requires
        is_sqrt(x, r),
        x <= 3 * 0x4000_0000_0000_0000,
    ensures
        r < 0x1_0000_0000,
{
    if r >= 0x1_0000_0000 {
        assert(r * r >= 0x1_0000_0000 * 0x1_0000_0000) by (nonlinear_arith)
            requires r >= 0x1_0000_0000;
        assert(false);
    }
}

} // verus!
