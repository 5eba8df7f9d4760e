//! A conceptual model for a spacetime that evolves through states.

use vstd::prelude::*;
use crate::numeric::{sat64, sat_to_i64};

verus! {

/// The state of a point in a simulated universe; the dimensionality is
/// encoded in the variant. Coordinates are in centi-units.
#[derive(Clone, Copy, Debug, PartialEq, Eq, Structural)]
pub enum SpacetimeCoordinate {
    /// A 1-dimensional reality: a single sequence point.
    Sequential(i64),
    /// A 4-dimensional reality: a point in spacetime (t, x, y, z).
    Minkowski(i64, i64, i64, i64),
}

/// The current coordinate state of the simulated spacetime.
#[derive(Clone, Copy, Debug, PartialEq, Eq, Structural)]
pub struct FractalSpacetime {
    pub coordinate: SpacetimeCoordinate,
}

/// Objects that can evolve over time.
pub trait Evolvable: Sized {
    type EnergyOutput;

    /// A catastrophic event that moves a 1-dimensional universe to a
    /// 4-dimensional one, releasing energy.
    fn transition_to_4d(&mut self) -> Self::EnergyOutput;

    /// A single step forward in time.
    fn tick(&mut self);
}

impl Evolvable for FractalSpacetime {
    /// The primordial waveform released by the transition.
    type EnergyOutput = Vec<i64>;

    /// Replaces a 1-dimensional coordinate by the spacetime origin and
    /// releases a two-sample waveform derived from the initial state: the
    /// state and its (saturating) negation. A universe that is already
    /// 4-dimensional does not transition and releases nothing.
    fn transition_to_4d(&mut self) -> (r: Vec<i64>)
        ensures
            old(self).coordinate matches SpacetimeCoordinate::Sequential(x) ==> {
                &&& final(self).coordinate == SpacetimeCoordinate::Minkowski(0, 0, 0, 0)
                &&& r@.len() == 2
                &&& r@[0] == x
                &&& r@[1] as int == sat64(-x)
            },
            old(self).coordinate matches SpacetimeCoordinate::Minkowski(t, x, y, z) ==> {
                &&& *final(self) == *old(self)
                &&& r@.len() == 0
            },
    {
        match self.coordinate {
            SpacetimeCoordinate::Sequential(initial_state) => {
                self.coordinate = SpacetimeCoordinate::Minkowski(0, 0, 0, 0);
                let mut wave: Vec<i64> = Vec::new();
                wave.push(initial_state);
                wave.push(sat_to_i64(-(initial_state as i128)));
                wave
            },
            SpacetimeCoordinate::Minkowski(_, _, _, _) => Vec::new(),
        }
    }

    /// Advances time by one whole unit, saturating at the machine range.
    fn tick(&mut self)
        ensures
            old(self).coordinate matches SpacetimeCoordinate::Sequential(t)
                ==> final(self).coordinate == SpacetimeCoordinate::Sequential(
                    sat64(t + 100) as i64),
            old(self).coordinate matches SpacetimeCoordinate::Minkowski(t, x, y, z)
                ==> final(self).coordinate == SpacetimeCoordinate::Minkowski(
                    sat64(t + 100) as i64, x, y, z),
    {
        match self.coordinate {
            SpacetimeCoordinate::Sequential(t) => {
                self.coordinate = SpacetimeCoordinate::Sequential(
                    sat_to_i64(t as i128 + 100));
            },
            SpacetimeCoordinate::Minkowski(t, x, y, z) => {
                self.coordinate = SpacetimeCoordinate::Minkowski(
                    sat_to_i64(t as i128 + 100), x, y, z);
            },
        }
    }
}

} // verus!
