//! An abstract representation of a connection or interaction.
//!
//! Unlike the geometric `GraphEdge`, a `FractalEdge` is a computational,
//! signal-like concept defined by an amplitude, a discrete location and a
//! phase.

use vstd::prelude::*;
use crate::complex::{Complex, spec_add, spec_mul};
use crate::constants::MODULUS;
use crate::numeric::{sat32, sat_to_i32};

verus! {

/// The complex scalar type used in this module.
pub type Scalar = Complex;

/// An abstract edge in a computational or signal-based system.
#[derive(Clone, Copy, Debug, PartialEq, Eq, Structural)]
pub struct FractalEdge {
    /// The strength of the signal, as a complex value in centi-units.
    pub amplitude: Scalar,
    /// A discrete index or address, used in modular arithmetic.
    pub location: usize,
    /// The phase angle, in the crate's centi angle measure.
    pub phase: i32,
}

impl FractalEdge {
    /// A convolution of two edges: the amplitudes multiply, the locations
    /// add modulo `MODULUS`, and the phases add (saturating at the phase
    /// range rather than wrapping).
    pub fn convolve(&self, other: &Self) -> (r: Self)
        ensures
            r.amplitude == spec_mul(self.amplitude, other.amplitude),
            r.location as int == (self.location + other.location) % (MODULUS as int),
            r.phase as int == sat32(self.phase + other.phase),
    {
        FractalEdge {
            amplitude: self.amplitude.mul(other.amplitude),
            location: (self.location % MODULUS + other.location % MODULUS) % MODULUS,
            phase: sat_to_i32(self.phase as i128 + other.phase as i128),
        }
    }

    /// Constructive interference: the amplitudes add. The edges must be
    /// in phase — exactly, in this fixed-point representation.
    pub fn combine(&self, other: &Self) -> (r: Self)
        requires
            self.phase == other.phase,
        ensures
            r.amplitude == spec_add(self.amplitude, other.amplitude),
            r.location == self.location,
            r.phase == self.phase,
    {
        FractalEdge {
            amplitude: self.amplitude.add(other.amplitude),
            location: self.location,
            phase: self.phase,
        }
    }
}

} // verus!
