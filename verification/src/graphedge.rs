//! A directed edge in geometric space.
//!
//! `GraphEdge` has geometric properties (`origin`, `direction`, `length`) and
//! a complex `data` payload carrying a wave-like amplitude and phase in fixed
//! point.

use vstd::prelude::*;
use crate::complex::Complex;
use crate::numeric::{floor_div, sat32, sat64, sat_to_i32, sat_to_i64, is_sqrt};
use crate::vec3::Vec3;

verus! {

/// A physical, directed connection in 3-dimensional space.
#[derive(Clone, Copy, Debug, PartialEq, Eq, Structural)]
pub struct GraphEdge {
    /// The spatial starting point of the edge.
    pub origin: Vec3,
    /// A vector indicating the edge's direction.
    pub direction: Vec3,
    /// The scalar length of the edge, in centi-units.
    pub length: i32,
    /// The recursive depth or scale level of this edge.
    pub depth: u32,
    /// The complex-valued data payload of the edge.
    pub data: Complex,
}

impl GraphEdge {
    /// The spatial endpoint: `origin + direction * length`.
    pub fn endpoint(&self) -> (r: Vec3)
        ensures
            r.x as int == sat32(self.origin.x + sat32(self.direction.x * self.length / 100)),
            r.y as int == sat32(self.origin.y + sat32(self.direction.y * self.length / 100)),
            r.z as int == sat32(self.origin.z + sat32(self.direction.z * self.length / 100)),
    {
        self.origin.add(self.direction.scaled(self.length))
    }

    /// A new edge with its length scaled by `factor` centi-units.
    pub fn scaled(&self, factor: i32) -> (r: GraphEdge)
        ensures
            r.length as int == sat32(self.length * factor / 100),
            r.origin == self.origin,
            r.direction == self.direction,
            r.depth == self.depth,
            r.data == self.data,
    {
        proof {
            crate::complex::lemma_i32_product_fits(self.length as int, factor as int);
        }
        GraphEdge {
            length: sat_to_i32(floor_div(self.length as i128 * factor as i128, 100)),
            ..*self
        }
    }

    /// A geometrically reversed edge: the new origin is the old endpoint,
    /// the direction is inverted, and the data is conjugated, as is typical
    /// for reversing wave-like phenomena.
    pub fn reversed(&self) -> (r: GraphEdge)
        ensures
            r.origin.x as int == sat32(self.origin.x + sat32(self.direction.x * self.length / 100)),
            r.origin.y as int == sat32(self.origin.y + sat32(self.direction.y * self.length / 100)),
            r.origin.z as int == sat32(self.origin.z + sat32(self.direction.z * self.length / 100)),
            r.direction.x as int == sat32(-self.direction.x),
            r.direction.y as int == sat32(-self.direction.y),
            r.direction.z as int == sat32(-self.direction.z),
            r.data.re == self.data.re,
            r.data.im as int == sat32(-self.data.im),
            r.length == self.length,
            r.depth == self.depth,
    {
        GraphEdge {
            origin: self.endpoint(),
            direction: self.direction.neg(),
            data: self.data.conj(),
            ..*self
        }
    }

    /// Modulates the edge in place by an entropy amount in centi-units:
    /// the length scales by `1 + entropy` and the data is multiplied by the
    /// complex value `(1 + entropy) + entropy i`.
    pub fn apply_entropy(&mut self, entropy: i32)
        ensures
            final(self).length as int == sat32(old(self).length * sat32(100 + entropy) / 100),
            final(self).data.re as int == sat32(
                (old(self).data.re * sat32(100 + entropy) - old(self).data.im * entropy) / 100),
            final(self).data.im as int == sat32(
                (old(self).data.re * entropy + old(self).data.im * sat32(100 + entropy)) / 100),
            final(self).origin == old(self).origin,
            final(self).direction == old(self).direction,
            final(self).depth == old(self).depth,
    {
        let factor: i32 = sat_to_i32(100 + entropy as i128);
        proof {
            crate::complex::lemma_i32_product_fits(self.length as int, factor as int);
        }
        self.length = sat_to_i32(floor_div(self.length as i128 * factor as i128, 100));
        self.data = self.data.mul(Complex::new(factor, entropy));
    }

    /// A crude similarity score in centi-units: direction alignment minus
    /// the length difference minus the magnitude of the data difference.
    pub fn similarity(&self, other: &Self) -> (r: i64)
        ensures
            ({
                let dir_dot = self.direction.x * other.direction.x
                    + self.direction.y * other.direction.y
                    + self.direction.z * other.direction.z;
                let len_diff = if self.length >= other.length {
                    self.length - other.length
                } else {
                    other.length - self.length
                };
                let dre = sat32(self.data.re - other.data.re);
                let dim = sat32(self.data.im - other.data.im);
                exists|nd: int|
                    #[trigger] is_sqrt(dre * dre + dim * dim, nd)
                        && r as int == sat64(dir_dot / 100 - len_diff - nd)
            }),
    {
        let dir_dot: i128 = self.direction.dot(other.direction);
        let len_diff: i64 = if self.length >= other.length {
            self.length as i64 - other.length as i64
        } else {
            other.length as i64 - self.length as i64
        };
        let diff: Complex = Complex::new(
            sat_to_i32(self.data.re as i128 - other.data.re as i128),
            sat_to_i32(self.data.im as i128 - other.data.im as i128),
        );
        let data_diff: u32 = diff.norm();
        proof {
            crate::complex::lemma_i32_product_fits(
                self.direction.x as int, other.direction.x as int);
            crate::complex::lemma_i32_product_fits(
                self.direction.y as int, other.direction.y as int);
            crate::complex::lemma_i32_product_fits(
                self.direction.z as int, other.direction.z as int);
        }
        sat_to_i64(floor_div(dir_dot, 100) - len_diff as i128 - data_diff as i128)
    }
}

} // verus!
