//! Fractal algebra and generative search.
//!
//! An in-process optimization core that iteratively searches a space of
//! candidate structures for one that maximizes a composite quality score.
//! Two strategies are offered: a generate/mutate/select evolutionary loop
//! driven by weighted scoring rules (`GeneratorCriticLoop` with a
//! `CriticSuite` and a `MutationSuite`), and a belief-driven search that
//! proposes candidates by sampling adaptive distributions and narrows in by
//! moving averages and annealing (`FrequencyBeliefSpace`).
//!
//! The candidates are `FractalField` values: collections of geometric edges
//! with complex payloads, living on or beside a `FractalGraph` substrate,
//! described by condensed `FractalSignature`s, classified by resonance laws
//! and narrowed by filters.
//!
//! All real-valued quantities are carried in exact fixed-point form: a
//! value of `x` centi-units stands for the real number `x / 100`.
//! Arithmetic is exact where it fits and saturates at the machine range
//! where it does not, and every contract states which of the two happened.

pub mod ai;
pub mod atom;
pub mod bayes;
pub mod complex;
pub mod constants;
pub mod criticloop;
pub mod critics;
pub mod laws;
pub mod looprep;
pub mod mutation;
pub mod numeric;
mod random;
pub mod evolutionary;
pub mod field;
pub mod filters;
pub mod fractaledge;
pub mod graph;
pub mod graphedge;
pub mod resonance;
pub mod rfg;
pub mod signature;
pub mod stochastic;
pub mod testkit;
pub mod tests;
pub mod text;
pub mod time;
pub mod traits;
pub mod vec3;

pub use atom::FractalAtom;
pub use ai::{EntangledSystem, EntropyPulse, FeedbackSignal, ParticleResonance, ProbabilisticSearch};
pub use bayes::{FrequencyBeliefSpace, Gaussian};
pub use complex::Complex;
pub use constants::MODULUS;
pub use criticloop::GeneratorCriticLoop;
pub use critics::CriticSuite;
pub use evolutionary::EvolutionaryGenerator;
pub use field::FractalField;
pub use filters::{FilterTrace, LawFilter, PredicateFilter, ScoreFilter};
pub use fractaledge::FractalEdge;
pub use graph::{EdgeType, FractalGraph, FractalGraphEdge, GraphError, NodeId};
pub use graphedge::GraphEdge;
pub use laws::{test_associativity, test_distributivity};
pub use looprep::LoopReport;
pub use mutation::MutationSuite;
pub use resonance::{
    Resonance, ResonanceFilter, ResonanceLaw, ResonantTransform, TransformResonanceLaw,
};
pub use rfg::RandomFieldGenerator;
pub use signature::FractalSignature;
pub use testkit::canonical_test_fractal;
pub use time::{Evolvable, FractalSpacetime, SpacetimeCoordinate};
pub use traits::{
    CollectionMember, Critic, EntropyCritic, Fractal, FractalCollection, Generator,
    HasSignature, Mandelbrot, MutationStrategy, Operation, SymmetryCritic, IFS,
};
pub use vec3::Vec3;

use vstd::prelude::*;

verus! {

/// The fixed-point scale: 100 centi-units make one whole unit.
pub const CENTI: i64 = 100;

} // verus!
