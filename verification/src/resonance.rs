//! The resonance framework: measuring and classifying coherence.
//!
//! "Resonance" abstracts patterns of coherence, harmony or structural
//! integrity within and between fractal objects, and the laws that govern
//! them.

use vstd::prelude::*;
use vstd::string::{StrSliceExecFns, StringExecFns};
use crate::complex::amp_of;
use crate::fractaledge::FractalEdge;
use crate::numeric::{sat32, sat_to_i32, sat64, sat_to_i64};
use crate::text::str_eq;
use crate::traits::{Fractal, FractalType};

verus! {

/// A structural classification of a resonance pattern.
#[derive(Debug, Clone, Copy, PartialEq, Eq, Hash)]
pub enum ResonanceLaw {
    /// Self-similarity or recursive echoing.
    Echo,
    /// Self-similar expansion or growth patterns.
    FractalGrowth,
    /// Constructive interference or phase alignment.
    Harmony,
    /// Destructive interference or phase misalignment.
    Dissonance,
    /// Modulated divergence, often factorial or entropic.
    EntropyPulse,
    /// Resonance preserved under transformation.
    Invariant,
    /// Quasi-periodic or emergent resonance from chaotic systems.
    ChaoticBeat,
    /// No detectable resonance; flat or noise-like.
    Null,
    /// Custom or domain-specific resonance not yet classified.
    Other(&'static str),
}

/// Whether two laws are the same classification; custom laws compare by
/// their label text.
pub open spec fn law_eq(a: ResonanceLaw, b: ResonanceLaw) -> bool {
    match (a, b) {
        (ResonanceLaw::Echo, ResonanceLaw::Echo) => true,
        (ResonanceLaw::FractalGrowth, ResonanceLaw::FractalGrowth) => true,
        (ResonanceLaw::Harmony, ResonanceLaw::Harmony) => true,
        (ResonanceLaw::Dissonance, ResonanceLaw::Dissonance) => true,
        (ResonanceLaw::EntropyPulse, ResonanceLaw::EntropyPulse) => true,
        (ResonanceLaw::Invariant, ResonanceLaw::Invariant) => true,
        (ResonanceLaw::ChaoticBeat, ResonanceLaw::ChaoticBeat) => true,
        (ResonanceLaw::Null, ResonanceLaw::Null) => true,
        (ResonanceLaw::Other(x), ResonanceLaw::Other(y)) => x@ == y@,
        _ => false,
    }
}

impl ResonanceLaw {
    /// Decides `law_eq`.
    pub fn same_law(&self, other: &ResonanceLaw) -> (r: bool)
        ensures
            r == law_eq(*self, *other),
    {
        match (self, other) {
            (ResonanceLaw::Echo, ResonanceLaw::Echo) => true,
            (ResonanceLaw::FractalGrowth, ResonanceLaw::FractalGrowth) => true,
            (ResonanceLaw::Harmony, ResonanceLaw::Harmony) => true,
            (ResonanceLaw::Dissonance, ResonanceLaw::Dissonance) => true,
            (ResonanceLaw::EntropyPulse, ResonanceLaw::EntropyPulse) => true,
            (ResonanceLaw::Invariant, ResonanceLaw::Invariant) => true,
            (ResonanceLaw::ChaoticBeat, ResonanceLaw::ChaoticBeat) => true,
            (ResonanceLaw::Null, ResonanceLaw::Null) => true,
            (ResonanceLaw::Other(x), ResonanceLaw::Other(y)) => str_eq(x, y),
            _ => false,
        }
    }

    /// A human-readable description of the law.
    pub fn description(&self) -> (r: String)
        ensures
            r@ == law_description(*self),
    {
        match self {
            ResonanceLaw::Echo => String::from_str("Echo (recursive self-similarity)"),
            ResonanceLaw::FractalGrowth => String::from_str("Fractal Growth (self-similar expansion)"),
            ResonanceLaw::Harmony => String::from_str("Harmony (constructive alignment)"),
            ResonanceLaw::Dissonance => String::from_str("Dissonance (destructive misalignment)"),
            ResonanceLaw::EntropyPulse => String::from_str("Entropy Pulse (modulated divergence)"),
            ResonanceLaw::Invariant => String::from_str("Invariant (transform-preserving)"),
            ResonanceLaw::ChaoticBeat => String::from_str("Chaotic Beat (emergent quasi-periodicity)"),
            ResonanceLaw::Null => String::from_str("Null (no resonance)"),
            ResonanceLaw::Other(label) => {
                let head: String = String::from_str("Other (");
                let with_label: String = head.concat(label);
                with_label.concat(")")
            },
        }
    }
}

/// The description each law carries.
pub open spec fn law_description(l: ResonanceLaw) -> Seq<char> {
    match l {
        ResonanceLaw::Echo => "Echo (recursive self-similarity)"@,
        ResonanceLaw::FractalGrowth => "Fractal Growth (self-similar expansion)"@,
        ResonanceLaw::Harmony => "Harmony (constructive alignment)"@,
        ResonanceLaw::Dissonance => "Dissonance (destructive misalignment)"@,
        ResonanceLaw::EntropyPulse => "Entropy Pulse (modulated divergence)"@,
        ResonanceLaw::Invariant => "Invariant (transform-preserving)"@,
        ResonanceLaw::ChaoticBeat => "Chaotic Beat (emergent quasi-periodicity)"@,
        ResonanceLaw::Null => "Null (no resonance)"@,
        ResonanceLaw::Other(label) => "Other ("@ + label@ + ")"@,
    }
}

/// Objects with a measurable, classifiable resonance.
pub trait Resonance: Sized {
    /// The intrinsic resonance score, as a mathematical value.
    spec fn score_spec(&self) -> int;

    /// The similarity of two objects, as a mathematical value in centi
    /// units between zero and one whole unit.
    spec fn similarity_spec(&self, other: &Self) -> int;

    /// The governing law, as a mathematical value.
    spec fn law_spec(&self) -> ResonanceLaw;

    /// A scalar score of the object's intrinsic resonance; higher means
    /// more coherent.
    fn resonance_score(&self) -> (r: i64)
        ensures
            r as int == self.score_spec(),
    ;

    /// Compares the resonance of this object with another; one whole unit
    /// means perfect resonance.
    fn resonance_similarity(&self, other: &Self) -> (r: i64)
        ensures
            r as int == self.similarity_spec(other),
    ;

    /// Whether the similarity with another object exceeds 0.80.
    fn is_resonant_with(&self, other: &Self) -> (r: bool)
        ensures
            r == (self.similarity_spec(other) > 80),
    ;

    /// Classifies the resonance pattern governing this object.
    fn resonance_law(&self) -> (r: ResonanceLaw)
        ensures
            r == self.law_spec(),
    ;

    /// An optional numeric fingerprint of the resonance.
    fn resonance_signature(&self) -> Option<Vec<i64>>;
}

/// A phase folded into one full turn (400 centi-units) and measured as a
/// distance from perfect alignment, between 0 and a half turn.
pub open spec fn phase_deviation(p: int) -> int {
    let folded = ((p % 400) + 400) % 400;
    if folded <= 200 {
        folded
    } else {
        400 - folded
    }
}

/// The executable form of `phase_deviation`.
fn phase_deviation_of(p: i32) -> (r: i32)
    ensures
        r as int == phase_deviation(p as int),
        0 <= r <= 200,
{
    let folded: i32 = ((p % 400) + 400) % 400;
    if folded <= 200 {
        folded
    } else {
        400 - folded
    }
}

impl Resonance for FractalEdge {
    /// The score grows with amplitude and with misalignment of the phase
    /// from a full turn.
    open spec fn score_spec(&self) -> int {
        sat64(amp_of(self.amplitude) * phase_deviation(self.phase as int) / 100)
    }

    /// A weighted mix of phase alignment and amplitude ratio: 0.6 times the
    /// phase similarity plus 0.4 times the ratio of the smaller amplitude
    /// to the larger.
    open spec fn similarity_spec(&self, other: &Self) -> int {
        let dev = phase_deviation(self.phase - other.phase);
        let phase_similarity = (200 - dev) * 100 / 200;
        let a = amp_of(self.amplitude);
        let b = amp_of(other.amplitude);
        let hi = if a >= b { a } else { b };
        let lo = if a >= b { b } else { a };
        let amp_ratio = if hi == 0 { 100int } else { lo * 100 / hi };
        (60 * phase_similarity + 40 * amp_ratio) / 100
    }

    /// Near-silent edges are Null; alignment is Harmony, a half turn is
    /// Dissonance, very loud edges pulse, and the rest echo.
    open spec fn law_spec(&self) -> ResonanceLaw {
        let amp = amp_of(self.amplitude);
        let dev = phase_deviation(self.phase as int);
        if amp < 1 {
            ResonanceLaw::Null
        } else if dev < 10 {
            ResonanceLaw::Harmony
        } else if 200 - dev < 10 {
            ResonanceLaw::Dissonance
        } else if amp > 1000 {
            ResonanceLaw::EntropyPulse
        } else {
            ResonanceLaw::Echo
        }
    }

    fn resonance_score(&self) -> (r: i64)
        ensures
            r as int == self.score_spec(),
    {
        let amp: u32 = self.amplitude.amp();
        let dev: i32 = phase_deviation_of(self.phase);
        proof {
            crate::complex::lemma_amp_range(self.amplitude);
            assert(0 <= amp as int * dev as int) by (nonlinear_arith)
                requires 0 <= amp, 0 <= dev;
            assert(amp as int * dev as int <= 0x1_0000_0000i64 * 200) by (nonlinear_arith)
                requires 0 <= amp < 0x1_0000_0000i64, 0 <= dev <= 200;
        }
        sat_to_i64(crate::numeric::floor_div(amp as i128 * dev as i128, 100))
    }

    fn resonance_similarity(&self, other: &Self) -> (r: i64)
        ensures
            r as int == self.similarity_spec(other),
    {
        let diff: i64 = self.phase as i64 - other.phase as i64;
        let dev: i32 = phase_deviation_of_wide(diff);
        let phase_similarity: i64 = (200 - dev as i64) * 100 / 200;
        let a: u32 = self.amplitude.amp();
        let b: u32 = other.amplitude.amp();
        let hi: u32 = if a >= b { a } else { b };
        let lo: u32 = if a >= b { b } else { a };
        let amp_ratio: i64 = if hi == 0 {
            100
        } else {
            proof {
                vstd::arithmetic::div_mod::lemma_div_pos_is_pos(
                    lo as int * 100, hi as int);
            }
            (lo as i64 * 100) / hi as i64
        };
        (60 * phase_similarity + 40 * amp_ratio) / 100
    }

    fn is_resonant_with(&self, other: &Self) -> (r: bool)
        ensures
            r == (self.similarity_spec(other) > 80),
    {
        self.resonance_similarity(other) > 80
    }

    fn resonance_law(&self) -> (r: ResonanceLaw)
        ensures
            r == self.law_spec(),
    {
        let amp: u32 = self.amplitude.amp();
        let dev: i32 = phase_deviation_of(self.phase);
        if amp < 1 {
            ResonanceLaw::Null
        } else if dev < 10 {
            ResonanceLaw::Harmony
        } else if 200 - dev < 10 {
            ResonanceLaw::Dissonance
        } else if amp > 1000 {
            ResonanceLaw::EntropyPulse
        } else {
            ResonanceLaw::Echo
        }
    }

    /// The fingerprint: both amplitude components, the phase and the
    /// location.
    fn resonance_signature(&self) -> Option<Vec<i64>> {
        let mut v: Vec<i64> = Vec::new();
        v.push(self.amplitude.re as i64);
        v.push(self.amplitude.im as i64);
        v.push(self.phase as i64);
        v.push(self.location as i64);
        Some(v)
    }
}

/// The deviation computation over a widened phase difference.
fn phase_deviation_of_wide(p: i64) -> (r: i32)
    ensures
        r as int == phase_deviation(p as int),
        0 <= r <= 200,
{
    let folded: i64 = ((p % 400) + 400) % 400;
    if folded <= 200 {
        folded as i32
    } else {
        (400 - folded) as i32
    }
}

/// The effect a transformation has on an object's resonance.
#[derive(Debug, Clone, Copy, PartialEq, Eq, Hash, Structural)]
pub enum TransformResonanceLaw {
    Invariant,
    Amplifying,
    Dampening,
    Chaotic,
}

/// Transformations that can affect an object's resonance.
pub trait ResonantTransform<T: Resonance>: Sized {
    /// What the transformation does, as a mathematical value.
    spec fn apply_spec(&self, input: &T) -> T;

    /// Applies the transformation.
    fn apply(&self, input: &T) -> (r: T)
        ensures
            r == self.apply_spec(input),
    ;

    /// The change in resonance score that applying would produce.
    fn resonance_delta(&self, input: &T) -> (r: i64)
        ensures
            r as int == sat64(self.apply_spec(input).score_spec() - input.score_spec()),
    ;

    /// Classifies the effect: a change below a hundredth of a unit is
    /// invariant, an increase amplifies, a decrease dampens.
    fn transform_law(&self, input: &T) -> (r: TransformResonanceLaw)
        ensures
            ({
                let delta = sat64(self.apply_spec(input).score_spec() - input.score_spec());
                if -1 <= delta <= 1 {
                    r == TransformResonanceLaw::Invariant
                } else if delta > 0 {
                    r == TransformResonanceLaw::Amplifying
                } else {
                    r == TransformResonanceLaw::Dampening
                }
            }),
    ;
}

/// A transformation that shifts the phase of an edge.
pub struct PhaseShift {
    /// The shift, in centi angle units, saturating at the phase range.
    pub delta: i32,
}

impl ResonantTransform<FractalEdge> for PhaseShift {
    open spec fn apply_spec(&self, input: &FractalEdge) -> FractalEdge {
        FractalEdge { phase: sat32(input.phase + self.delta) as i32, ..*input }
    }

    fn apply(&self, input: &FractalEdge) -> (r: FractalEdge)
        ensures
            r == self.apply_spec(input),
    {
        FractalEdge {
            phase: sat_to_i32(input.phase as i128 + self.delta as i128),
            ..*input
        }
    }

    fn resonance_delta(&self, input: &FractalEdge) -> (r: i64)
        ensures
            r as int == sat64(self.apply_spec(input).score_spec() - input.score_spec()),
    {
        let before: i64 = input.resonance_score();
        let after: i64 = self.apply(input).resonance_score();
        sat_to_i64(after as i128 - before as i128)
    }

    fn transform_law(&self, input: &FractalEdge) -> (r: TransformResonanceLaw)
        ensures
            ({
                let delta = sat64(self.apply_spec(input).score_spec() - input.score_spec());
                if -1 <= delta <= 1 {
                    r == TransformResonanceLaw::Invariant
                } else if delta > 0 {
                    r == TransformResonanceLaw::Amplifying
                } else {
                    r == TransformResonanceLaw::Dampening
                }
            }),
    {
        let delta: i64 = self.resonance_delta(input);
        if -1 <= delta && delta <= 1 {
            TransformResonanceLaw::Invariant
        } else if delta > 0 {
            TransformResonanceLaw::Amplifying
        } else {
            TransformResonanceLaw::Dampening
        }
    }
}

/// A symbolic, quantum-like fragment of information.
#[derive(Debug)]
pub struct SemanticUnit {
    pub label: String,
    pub depth: usize,
    pub phase: i64,
    pub fractal: FractalType,
}

impl Clone for SemanticUnit {
    /// An exact copy: the clone means the same unit.
    fn clone(&self) -> (r: Self)
        ensures
            unit_eq(r, *self),
    {
        proof {
            crate::traits::lemma_ft_eq_reflexive(&self.fractal);
        }
        SemanticUnit {
            label: self.label.clone(),
            depth: self.depth,
            phase: self.phase,
            fractal: self.fractal.clone(),
        }
    }
}

impl crate::traits::SemanticEq for SemanticUnit {
    /// Two units mean the same when their label, depth, phase and fractal
    /// all agree.
    open spec fn semantic_eq_spec(&self, other: &Self) -> bool {
        unit_eq(*self, *other)
    }

    fn semantic_eq(&self, other: &Self) -> (r: bool)
        ensures
            r == self.semantic_eq_spec(other),
    {
        str_eq(self.label.as_str(), other.label.as_str()) && self.depth == other.depth
            && self.phase == other.phase && self.fractal.is_equal(&other.fractal)
    }
}

/// Whether two units mean the same: same label, depth, phase and fractal.
pub open spec fn unit_eq(a: SemanticUnit, b: SemanticUnit) -> bool {
    &&& a.label@ == b.label@
    &&& a.depth == b.depth
    &&& a.phase == b.phase
    &&& crate::traits::ft_eq(&a.fractal, &b.fractal)
}

/// A rule that transforms a semantic unit into deeper structure.
pub struct ResonanceRule<F> {
    pub transformation: F,
}

/// A collection of semantic units forming a computational space.
pub struct SemanticLattice {
    pub units: Vec<SemanticUnit>,
    pub depth: usize,
}

impl SemanticLattice {
    /// The current resonance depth.
    pub fn resonance_depth(&self) -> (r: usize)
        ensures
            r == self.depth,
    {
        self.depth
    }

    /// The units sitting at the given depth, in their stored order.
    pub fn project(&self, depth: usize) -> (r: Vec<SemanticUnit>)
        ensures
            r@.len() <= self.units@.len(),
            forall|i: int| 0 <= i < r@.len() ==> (#[trigger] r@[i]).depth == depth,
    {
        let n: usize = self.units.len();
        let mut out: Vec<SemanticUnit> = Vec::new();
        let mut k: usize = 0;
        while k < n
            invariant
                k <= n,
                n == self.units@.len(),
                out@.len() <= k,
                forall|i: int| 0 <= i < out@.len() ==> (#[trigger] out@[i]).depth == depth,
            decreases n - k,
        {
            if self.units[k].depth == depth {
                out.push(self.units[k].clone());
            }
            k = k + 1;
        }
        out
    }

    /// One transformation step: every unit at the current depth is expanded
    /// by the rule, the results are appended after the existing units, and
    /// the depth advances by one (saturating at the machine range).
    pub fn transform<F: Fn(&SemanticUnit) -> Vec<SemanticUnit>>(
        &mut self,
        rule: &ResonanceRule<F>,
    )
        requires
            forall|u: SemanticUnit| #[trigger] call_requires(rule.transformation, (&u,)),
        ensures
            final(self).units@.len() >= old(self).units@.len(),
            forall|i: int| 0 <= i < old(self).units@.len()
                ==> (#[trigger] final(self).units@[i]) == old(self).units@[i],
            old(self).depth < usize::MAX ==> final(self).depth == old(self).depth + 1,
            old(self).depth == usize::MAX ==> final(self).depth == usize::MAX,
    {
        let n: usize = self.units.len();
        let mut grown: Vec<SemanticUnit> = Vec::new();
        let mut k: usize = 0;
        while k < n
            invariant
                k <= n,
                n == self.units@.len(),
                *self == *old(self),
                forall|u: SemanticUnit| #[trigger] call_requires(rule.transformation, (&u,)),
            decreases n - k,
        {
            if self.units[k].depth == self.depth {
                let batch: Vec<SemanticUnit> = (rule.transformation)(&self.units[k]);
                let bn: usize = batch.len();
                let mut b: usize = 0;
                while b < bn
                    invariant
                        b <= bn,
                        bn == batch@.len(),
                    decreases bn - b,
                {
                    grown.push(batch[b].clone());
                    b = b + 1;
                }
            }
            k = k + 1;
        }
        let gn: usize = grown.len();
        let mut g: usize = 0;
        while g < gn
            invariant
                g <= gn,
                gn == grown@.len(),
                self.units@.len() >= old(self).units@.len(),
                self.depth == old(self).depth,
                forall|i: int| 0 <= i < old(self).units@.len()
                    ==> (#[trigger] self.units@[i]) == old(self).units@[i],
            decreases gn - g,
        {
            self.units.push(grown[g].clone());
            g = g + 1;
        }
        if self.depth < usize::MAX {
            self.depth = self.depth + 1;
        }
    }

    /// The units a filter keeps, in order.
    pub fn filter<FLT: ResonanceFilter>(&self, filter: &FLT) -> (r: Vec<SemanticUnit>)
        ensures
            r@.len() <= self.units@.len(),
            forall|i: int| 0 <= i < r@.len() ==> filter.keeps_spec(#[trigger] r@[i]),
    {
        filter.apply(self.units.as_slice())
    }

    /// The lattice's condensed signature, aggregated over all its units.
    pub fn fractal_signature(&self) -> (r: crate::signature::FractalSignature)
        ensures
            r.edge_count == self.units@.len(),
            r.total_amplitude as int == crate::signature::unit_depth_sum(self.units@),
    {
        crate::signature::FractalSignature::from_units(self.units.as_slice())
    }
}

impl crate::traits::FractalQuantumSpace for SemanticLattice {
    type SemanticUnit = SemanticUnit;

    fn resonance_depth(&self) -> usize {
        SemanticLattice::resonance_depth(self)
    }

    fn project(&self, depth: usize) -> Vec<SemanticUnit> {
        SemanticLattice::project(self, depth)
    }

    fn fractal_signature(&self) -> crate::signature::FractalSignature {
        SemanticLattice::fractal_signature(self)
    }
}

/// A filter that selects fractals and semantic units.
pub trait ResonanceFilter: Sized {
    /// Which fractals pass, as a mathematical value.
    spec fn passes_spec(&self, fractal: FractalType) -> bool;

    /// Which semantic units survive `apply`, as a mathematical value.
    spec fn keeps_spec(&self, unit: SemanticUnit) -> bool;

    /// The decision reads only what a unit means, so semantically equal
    /// units are kept or dropped together.
    proof fn keeps_respects_unit_eq(&self, a: SemanticUnit, b: SemanticUnit)
        requires
            unit_eq(a, b),
        ensures
            self.keeps_spec(a) == self.keeps_spec(b),
    ;

    /// Likewise, the fractal-level verdict reads only what a fractal means.
    proof fn passes_respects_ft_eq(&self, a: FractalType, b: FractalType)
        requires
            crate::traits::ft_eq(&a, &b),
        ensures
            self.passes_spec(a) == self.passes_spec(b),
    ;

    /// Whether a fractal passes the filter.
    fn passes(&self, fractal: &FractalType) -> (r: bool)
        ensures
            r == self.passes_spec(*fractal),
    ;

    /// Whether a single unit would survive the filter.
    fn keeps(&self, unit: &SemanticUnit) -> (r: bool)
        ensures
            r == self.keeps_spec(*unit),
    ;

    /// The units that survive the filter: at most as many as came in, and
    /// every one of them satisfies the filter.
    fn apply(&self, units: &[SemanticUnit]) -> (r: Vec<SemanticUnit>)
        ensures
            r@.len() <= units@.len(),
            forall|i: int| 0 <= i < r@.len() ==> self.keeps_spec(#[trigger] r@[i]),
    ;
}

} // verus!
