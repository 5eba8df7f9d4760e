//! A mutation strategy that applies stochastic jitter to amplitude and
//! phase.
//!
//! Amplitude jitter scales each edge payload by a random factor around one
//! whole unit, which changes its magnitude and keeps its direction; phase
//! jitter rotates the payload by random exact quarter turns. Both are exact
//! fixed-point operations, and the strategy's postcondition pins each output
//! payload to such a scaling and rotation of its input.

use vstd::prelude::*;
use crate::complex::{
    lemma_scaled_by_one_unit, spec_rot_n, spec_scaled, Complex,
};
use crate::field::FractalField;
use crate::graphedge::GraphEdge;
use crate::numeric::sat_to_i32;
use crate::random::rand_between;
use crate::traits::MutationStrategy;

verus! {

/// Perturbs the amplitude and phase of each edge's payload by a random
/// amount.
pub struct StochasticAmplitudePhase {
    /// The largest change of amplitude, in centi-units around one unit: a
    /// value of 20 scales each payload by a factor between 0.80 and 1.20.
    pub amplitude_jitter: i32,
    /// The largest rotation, in quarter turns (at most three are distinct).
    pub phase_jitter: i32,
}

/// Whether a scale factor and a turn count are draws the two jitter bounds
/// allow; a non-positive jitter pins its draw to the identity.
pub open spec fn jitter_draw_ok(
    amplitude_jitter: int,
    phase_jitter: int,
    factor: int,
    turns: int,
) -> bool {
    &&& (if amplitude_jitter <= 0 {
        factor == 100
    } else {
        100 - amplitude_jitter <= factor <= 100 + amplitude_jitter
    })
    &&& (if phase_jitter <= 0 {
        turns == 0
    } else {
        0 <= turns <= (if phase_jitter > 3 { 3int } else { phase_jitter })
    })
}

/// Whether `output` is `input` scaled by an allowed factor and then rotated
/// by an allowed number of exact quarter turns.
pub open spec fn data_jittered(
    amplitude_jitter: int,
    phase_jitter: int,
    input: Complex,
    output: Complex,
) -> bool {
    exists|factor: int, turns: int| {
        &&& #[trigger] jitter_draw_ok(amplitude_jitter, phase_jitter, factor, turns)
        &&& output == spec_rot_n(spec_scaled(input, factor), turns as nat)
    }
}

/// Scales a payload by a random factor within `jitter` centi-units of one
/// unit; a non-positive jitter leaves the payload unchanged.
pub(crate) fn jitter_amplitude(data: Complex, jitter: i32) -> (r: Complex)
    ensures
        jitter <= 0 ==> r == data,
        jitter > 0 ==> exists|factor: int|
            100 - jitter <= factor <= 100 + jitter
                && r == #[trigger] spec_scaled(data, factor),
{
    if jitter <= 0 {
        data
    } else {
        let drawn: i64 = rand_between(100 - jitter as i64, 100 + jitter as i64 + 1);
        let factor: i32 = sat_to_i32(drawn as i128);
        let out: Complex = data.scaled(factor);
        proof {
            assert(100 - jitter as int <= factor as int <= 100 + jitter as int);
            assert(out == spec_scaled(data, factor as int));
        }
        out
    }
}

/// Rotates a payload by a random number of exact quarter turns, at most
/// `jitter` of them (three at most, since four is a full turn); a
/// non-positive jitter leaves the payload unchanged.
pub(crate) fn jitter_phase(data: Complex, jitter: i32) -> (r: Complex)
    ensures
        jitter <= 0 ==> r == data,
        jitter > 0 ==> exists|turns: int|
            0 <= turns <= (if jitter > 3 { 3int } else { jitter as int })
                && r == #[trigger] spec_rot_n(data, turns as nat),
{
    if jitter <= 0 {
        return data;
    }
    let bound: i64 = if jitter as i64 > 3 { 3 } else { jitter as i64 };
    let turns: i64 = rand_between(0, bound + 1);
    let mut out: Complex = data;
    let mut t: i64 = 0;
    while t < turns
        invariant
            0 <= t <= turns,
            turns <= 3,
            out == spec_rot_n(data, t as nat),
        decreases turns - t,
    {
        out = out.rotated_quarter();
        t = t + 1;
    }
    proof {
        assert(out == spec_rot_n(data, turns as nat));
    }
    out
}

impl MutationStrategy for StochasticAmplitudePhase {
    /// Every outcome keeps the edge count and the geometry of each edge, and
    /// each output payload is the input payload scaled by a factor within
    /// the amplitude jitter of one unit and rotated by at most the phase
    /// jitter in exact quarter turns.
    open spec fn mutate_post(&self, input: &FractalField, output: &FractalField) -> bool {
        &&& output.edges@.len() == input.edges@.len()
        &&& forall|i: int| 0 <= i < input.edges@.len() ==> {
            &&& (#[trigger] output.edges@[i]).origin == input.edges@[i].origin
            &&& output.edges@[i].direction == input.edges@[i].direction
            &&& output.edges@[i].length == input.edges@[i].length
            &&& output.edges@[i].depth == input.edges@[i].depth
            &&& data_jittered(
                self.amplitude_jitter as int,
                self.phase_jitter as int,
                input.edges@[i].data,
                output.edges@[i].data,
            )
        }
    }

    fn mutate(&self, field: &FractalField) -> (r: FractalField)
        ensures
            self.mutate_post(field, &r),
    {
        let n: usize = field.edges.len();
        let mut edges: Vec<GraphEdge> = Vec::new();
        let mut k: usize = 0;
        while k < n
            invariant
                k <= n,
                n == field.edges@.len(),
                edges@.len() == k,
                forall|i: int| 0 <= i < k ==> {
                    &&& (#[trigger] edges@[i]).origin == field.edges@[i].origin
                    &&& edges@[i].direction == field.edges@[i].direction
                    &&& edges@[i].length == field.edges@[i].length
                    &&& edges@[i].depth == field.edges@[i].depth
                    &&& data_jittered(
                        self.amplitude_jitter as int,
                        self.phase_jitter as int,
                        field.edges@[i].data,
                        edges@[i].data,
                    )
                },
            decreases n - k,
        {
            let e: GraphEdge = field.edges[k];
            let with_amp: Complex = jitter_amplitude(e.data, self.amplitude_jitter);
            let with_phase: Complex = jitter_phase(with_amp, self.phase_jitter);
            proof {
                lemma_jitter_composition(
                    self.amplitude_jitter as int,
                    self.phase_jitter as int,
                    e.data,
                    with_amp,
                    with_phase,
                );
            }
            edges.push(GraphEdge { data: with_phase, ..e });
            k = k + 1;
        }
        FractalField { edges }
    }
}

/// A payload that went through the two jitter stages is a jittered form of
/// the input: the witnesses are the stage draws, or the identity values
/// where a jitter is non-positive.
pub(crate) proof fn lemma_jitter_composition(
    amplitude_jitter: int,
    phase_jitter: int,
    input: Complex,
    scaled: Complex,
    output: Complex,
)
    requires
        amplitude_jitter <= 0 ==> scaled == input,
        amplitude_jitter > 0 ==> exists|factor: int|
            100 - amplitude_jitter <= factor <= 100 + amplitude_jitter
                && scaled == #[trigger] spec_scaled(input, factor),
        phase_jitter <= 0 ==> output == scaled,
        phase_jitter > 0 ==> exists|turns: int|
            0 <= turns <= (if phase_jitter > 3 { 3int } else { phase_jitter })
                && output == #[trigger] spec_rot_n(scaled, turns as nat),
    ensures
        data_jittered(amplitude_jitter, phase_jitter, input, output),
{
    let factor: int = if amplitude_jitter <= 0 {
        lemma_scaled_by_one_unit(input);
        100int
    } else {
        choose|f: int| 100 - amplitude_jitter <= f <= 100 + amplitude_jitter
            && scaled == #[trigger] spec_scaled(input, f)
    };
    assert(scaled == spec_scaled(input, factor));
    let turns: int = if phase_jitter <= 0 {
        0int
    } else {
        choose|t: int| 0 <= t <= (if phase_jitter > 3 { 3int } else { phase_jitter })
            && output == #[trigger] spec_rot_n(scaled, t as nat)
    };
    assert(output == spec_rot_n(scaled, turns as nat));
    assert(jitter_draw_ok(amplitude_jitter, phase_jitter, factor, turns));
    assert(output == spec_rot_n(spec_scaled(input, factor), turns as nat));
}

} // verus!
