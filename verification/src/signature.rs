//! A condensed summary of a field's properties.
//!
//! `FractalSignature` holds aggregated data about a `FractalField`, used for
//! quick comparisons, classification, and evaluation by critics.

use vstd::prelude::*;
use crate::numeric::{floor_div, sat64, sat_to_i64, sat_u32, sat_to_u32};

verus! {

/// Aggregated data about a field; amplitudes, phases and entropy are in the
/// crate's centi-unit fixed point.
#[derive(Clone, Copy, Debug, PartialEq, Eq)]
pub struct FractalSignature {
    pub total_amplitude: i64,
    pub average_phase: i64,
    pub entropy: i64,
    pub edge_count: usize,
    pub depth_range: (u32, u32),
}

/// The absolute difference of two values.
pub open spec fn abs_diff(a: int, b: int) -> int {
    if a >= b {
        a - b
    } else {
        b - a
    }
}

impl FractalSignature {
    /// A simple distance metric between two signatures: the sum of the
    /// absolute differences of the scalar fields, saturating at the i64
    /// range.
    pub fn distance(&self, other: &Self) -> (r: i64)
        ensures
            r as int == sat64(
                abs_diff(self.total_amplitude as int, other.total_amplitude as int)
                    + abs_diff(self.average_phase as int, other.average_phase as int)
                    + abs_diff(self.entropy as int, other.entropy as int)
                    + abs_diff(self.edge_count as int, other.edge_count as int)),
    {
        let da: i128 = abs_diff_i64(self.total_amplitude, other.total_amplitude);
        let dp: i128 = abs_diff_i64(self.average_phase, other.average_phase);
        let de: i128 = abs_diff_i64(self.entropy, other.entropy);
        let dc: i128 = if self.edge_count >= other.edge_count {
            (self.edge_count - other.edge_count) as i128
        } else {
            (other.edge_count - self.edge_count) as i128
        };
        sat_to_i64(da + dp + de + dc)
    }

    /// Whether the signature is symmetric: the average phase is exactly on
    /// the real axis, at zero or at a half turn in either direction.
    pub fn is_symmetric(&self) -> (r: bool)
        ensures
            r == (self.average_phase == 0 || self.average_phase == 200
                || self.average_phase == -200),
    {
        self.average_phase == 0 || self.average_phase == 200 || self.average_phase == -200
    }

    /// A signature with its amplitude-dependent fields normalized: the total
    /// amplitude becomes one whole unit and the entropy is rescaled by the
    /// previous amplitude (clamped below at one centi-unit to avoid a division
    /// by zero).
    pub fn normalized(&self) -> (r: Self)
        ensures
            ({
                let base = if self.total_amplitude >= 1 { self.total_amplitude as int } else { 1int };
                r.total_amplitude == 100
                    && r.entropy as int == sat64(self.entropy * 100 / base)
                    && r.average_phase == self.average_phase
                    && r.edge_count == self.edge_count
                    && r.depth_range == self.depth_range
            }),
    {
        let base: i64 = if self.total_amplitude >= 1 { self.total_amplitude } else { 1 };
        FractalSignature {
            total_amplitude: 100,
            entropy: sat_to_i64(floor_div(self.entropy as i128 * 100, base as i128)),
            ..*self
        }
    }
}

/// The saturating sum of the depths of a batch of semantic units.
pub open spec fn unit_depth_sum(s: Seq<crate::resonance::SemanticUnit>) -> int
    decreases s.len(),
{
    if s.len() == 0 {
        0
    } else {
        sat64(unit_depth_sum(s.drop_last()) + s.last().depth)
    }
}

/// The saturating sum of the phases of a batch of semantic units.
pub open spec fn unit_phase_sum(s: Seq<crate::resonance::SemanticUnit>) -> int
    decreases s.len(),
{
    if s.len() == 0 {
        0
    } else {
        sat64(unit_phase_sum(s.drop_last()) + s.last().phase)
    }
}

/// The least depth in a batch of semantic units, zero when it is empty.
pub open spec fn unit_min_depth(s: Seq<crate::resonance::SemanticUnit>) -> int
    decreases s.len(),
{
    if s.len() == 0 {
        0
    } else if s.len() == 1 {
        s.last().depth as int
    } else if s.last().depth < unit_min_depth(s.drop_last()) {
        s.last().depth as int
    } else {
        unit_min_depth(s.drop_last())
    }
}

/// The greatest depth in a batch of semantic units, zero when it is empty.
pub open spec fn unit_max_depth(s: Seq<crate::resonance::SemanticUnit>) -> int
    decreases s.len(),
{
    if s.len() == 0 {
        0
    } else if s.last().depth > unit_max_depth(s.drop_last()) {
        s.last().depth as int
    } else {
        unit_max_depth(s.drop_last())
    }
}

impl FractalSignature {
    /// Condenses a batch of semantic units into a signature: the depths act
    /// as amplitudes and also as the entropy proxy, the phases average as
    /// usual, and the depth range clamps into its field width.
    pub fn from_units(units: &[crate::resonance::SemanticUnit]) -> (r: Self)
        ensures
            r.edge_count == units@.len(),
            r.total_amplitude as int == unit_depth_sum(units@),
            r.depth_range.0 as int == sat_u32(unit_min_depth(units@)),
            r.depth_range.1 as int == sat_u32(unit_max_depth(units@)),
            units@.len() == 0 ==> r.average_phase == 0 && r.entropy == 0,
            units@.len() > 0 ==> r.average_phase as int
                == unit_phase_sum(units@) / units@.len() as int,
            units@.len() > 0 ==> r.entropy as int
                == unit_depth_sum(units@) / units@.len() as int,
    {
        let n: usize = units.len();
        if n == 0 {
            return FractalSignature {
                total_amplitude: 0,
                average_phase: 0,
                entropy: 0,
                edge_count: 0,
                depth_range: (0, 0),
            };
        }
        let mut depth_total: i64 = 0;
        let mut phase_total: i64 = 0;
        let mut min_d: usize = units[0].depth;
        let mut max_d: usize = 0;
        let mut k: usize = 0;
        while k < n
            invariant
                k <= n,
                n == units@.len(),
                n > 0,
                depth_total as int == unit_depth_sum(units@.subrange(0, k as int)),
                phase_total as int == unit_phase_sum(units@.subrange(0, k as int)),
                k > 0 ==> min_d as int == unit_min_depth(units@.subrange(0, k as int)),
                k == 0 ==> min_d == units@[0].depth,
                max_d as int == unit_max_depth(units@.subrange(0, k as int)),
            decreases n - k,
        {
            let d: usize = units[k].depth;
            let p: i64 = units[k].phase;
            depth_total = sat_to_i64(depth_total as i128 + d as i128);
            phase_total = sat_to_i64(phase_total as i128 + p as i128);
            if k == 0 || d < min_d {
                min_d = d;
            }
            if d > max_d {
                max_d = d;
            }
            proof {
                assert(units@.subrange(0, k as int + 1).drop_last()
                    =~= units@.subrange(0, k as int));
            }
            k = k + 1;
        }
        proof {
            assert(units@.subrange(0, n as int) =~= units@);
            lemma_quotient_in_range(depth_total as int, n as int);
            lemma_quotient_in_range(phase_total as int, n as int);
        }
        FractalSignature {
            total_amplitude: depth_total,
            average_phase: sat_to_i64(floor_div(phase_total as i128, n as i128)),
            entropy: sat_to_i64(floor_div(depth_total as i128, n as i128)),
            edge_count: n,
            depth_range: (sat_to_u32(min_d as u64), sat_to_u32(max_d as u64)),
        }
    }
}

/// Dividing an i64 value by a positive count keeps it in the i64 range.
proof fn lemma_quotient_in_range(x: int, d: int)
    requires
        i64::MIN <= x <= i64::MAX,
        1 <= d,
    ensures
        i64::MIN <= x / d <= i64::MAX,
        sat64(x / d) == x / d,
{
    vstd::arithmetic::div_mod::lemma_div_is_ordered(x, i64::MAX as int, d);
    vstd::arithmetic::div_mod::lemma_div_is_ordered(i64::MIN as int, x, d);
    vstd::arithmetic::div_mod::lemma_div_is_ordered_by_denominator(i64::MAX as int, 1, d);
    crate::field::lemma_quotient_in_i64(x, d);
}

/// The absolute difference of two i64 values, exact in a wide intermediate.
fn abs_diff_i64(a: i64, b: i64) -> (r: i128)
    ensures
        r == abs_diff(a as int, b as int),
{
    if a >= b {
        a as i128 - b as i128
    } else {
        b as i128 - a as i128
    }
}

} // verus!
