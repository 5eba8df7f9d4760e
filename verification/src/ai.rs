//! Core types for the probabilistic search system.
//!
//! An `EntropyPulse` is the action a searcher proposes; a `FeedbackSignal`
//! is the measured quality of that action, where lower is strictly better.
//! `ProbabilisticSearch` abstracts the engine that proposes pulses and
//! learns from feedback.

use vstd::prelude::*;
use crate::complex::Complex;
use crate::graph::{FractalGraph, FractalGraphEdge, NodeId};

verus! {

/// The computational environment: a graph substrate whose edges hold
/// complex amplitudes, together with a pair of entangled particle-like
/// resonance patterns living on it.
pub struct EntangledSystem {
    /// The graph where computations occur; edge weights are amplitudes.
    pub graph: FractalGraph<Complex>,
    /// The pair of entangled particles.
    pub particles: (ParticleResonance, ParticleResonance),
}

impl EntangledSystem {
    /// A new system from a graph and two initial particles.
    pub fn new(
        graph: FractalGraph<Complex>,
        particle_a: ParticleResonance,
        particle_b: ParticleResonance,
    ) -> (r: Self)
        ensures
            r.graph == graph,
            r.particles.0 == particle_a,
            r.particles.1 == particle_b,
    {
        EntangledSystem { graph, particles: (particle_a, particle_b) }
    }

    /// Creates a particle representation at a node: the weight of every
    /// outgoing edge is set to the real unit amplitude, and the destinations
    /// of those edges become the particle's pattern. Yields nothing when the
    /// node does not exist.
    #[allow(dead_code)]
    fn create_particle_at(&mut self, node_id: NodeId) -> (r: Option<ParticleResonance>)
        requires
            old(self).graph.wf(),
        ensures
            final(self).graph.wf(),
            r is Some <==> old(self).graph.has_node(node_id),
            r matches Some(p) ==> {
                let before = old(self).graph.edges_of(node_id);
                &&& p.core_node == node_id
                &&& p.state_edges@ == before.map_values(|e: FractalGraphEdge| e.destination)
                &&& p.pattern_nodes@ == before.map_values(|e: FractalGraphEdge| e.destination)
                &&& final(self).graph.edges_of(node_id) == before.map_values(
                    |e: FractalGraphEdge| FractalGraphEdge {
                        weight: Complex { re: 100, im: 0 },
                        ..e
                    })
            },
    {
        let connected: Option<&Vec<FractalGraphEdge>> = self.graph.get_edges_for_node(node_id);
        match connected {
            Some(list) => {
                let n: usize = list.len();
                let mut updated: Vec<FractalGraphEdge> = Vec::new();
                let mut destinations: Vec<NodeId> = Vec::new();
                let mut destinations_again: Vec<NodeId> = Vec::new();
                let mut k: usize = 0;
                while k < n
                    invariant
                        k <= n,
                        n == list@.len(),
                        updated@ =~= list@.subrange(0, k as int).map_values(
                            |e: FractalGraphEdge| FractalGraphEdge {
                                weight: Complex { re: 100, im: 0 },
                                ..e
                            }),
                        destinations@ =~= list@.subrange(0, k as int).map_values(
                            |e: FractalGraphEdge| e.destination),
                        destinations_again@ == destinations@,
                    decreases n - k,
                {
                    let e: FractalGraphEdge = list[k];
                    updated.push(FractalGraphEdge { weight: Complex { re: 100, im: 0 }, ..e });
                    destinations.push(e.destination);
                    destinations_again.push(e.destination);
                    proof {
                        assert(list@.subrange(0, k as int + 1).drop_last()
                            =~= list@.subrange(0, k as int));
                    }
                    k = k + 1;
                }
                proof {
                    assert(list@.subrange(0, n as int) =~= list@);
                }
                let set_ok: bool = self.graph.set_edges_for_node(node_id, updated);
                proof {
                    assert(set_ok);
                }
                Some(ParticleResonance {
                    pattern_nodes: destinations,
                    core_node: node_id,
                    state_edges: destinations_again,
                })
            },
            None => None,
        }
    }
}

/// A wave-like probe: the guess a searcher makes. Frequency and amplitude
/// are in centi-units; the waveform label is carried but never interpreted.
#[derive(Debug)]
pub struct EntropyPulse {
    pub frequency: i64,
    pub amplitude: i64,
    pub waveform: String,
}

impl Clone for EntropyPulse {
    /// An exact copy.
    fn clone(&self) -> (r: Self)
        ensures
            r == *self,
    {
        EntropyPulse {
            frequency: self.frequency,
            amplitude: self.amplitude,
            waveform: self.waveform.clone(),
        }
    }
}

/// The measured quality of a pulse: the searcher's objective is to drive
/// `correlation_strength` down toward zero.
#[derive(Clone, Copy, Debug, PartialEq, Eq, Structural)]
pub struct FeedbackSignal {
    /// The quality figure of the last pulse, in centi-units; lower is
    /// strictly better.
    pub correlation_strength: i64,
}

/// A particle as a stable, oscillating pattern of states within a graph: a
/// subgraph of resonating nodes identified by a central core node.
pub struct ParticleResonance {
    /// The set of nodes that form the particle's resonance pattern.
    pub pattern_nodes: Vec<NodeId>,
    /// The central node from which the pattern originates.
    pub core_node: NodeId,
    /// The destinations of the edges whose weights oscillate to represent
    /// the particle's state.
    pub state_edges: Vec<NodeId>,
}

/// A probabilistic, belief-driven learning engine: it proposes new pulses
/// and updates its beliefs from the feedback each one earned.
pub trait ProbabilisticSearch: Sized {
    /// What the implementation promises of every proposal it makes.
    spec fn propose_post(&self, r: &EntropyPulse) -> bool;

    /// How an update changes the implementation's state.
    spec fn update_post(&self, next: &Self, feedback: &FeedbackSignal, last_guess: &EntropyPulse)
        -> bool;

    /// Whatever the implementation needs of its own state.
    spec fn inv(&self) -> bool;

    /// Proposes a new pulse from the current beliefs.
    fn propose_best_guess(&self) -> (r: EntropyPulse)
        requires
            self.inv(),
        ensures
            self.propose_post(&r),
    ;

    /// Updates the internal beliefs from the feedback on the last guess.
    fn update(&mut self, feedback: &FeedbackSignal, last_guess: &EntropyPulse)
        requires
            old(self).inv(),
        ensures
            final(self).inv(),
            old(self).update_post(final(self), feedback, last_guess),
    ;
}

/// A symmetry constraint engine: a rule that decides whether a proposed
/// pulse is admissible.
pub trait SymmetryConstraint: Sized {
    /// The rule itself, as a mathematical value.
    spec fn valid_spec(&self, pulse: &EntropyPulse) -> bool;

    /// Checks whether a pulse adheres to the constraint.
    fn is_valid(&self, pulse: &EntropyPulse) -> (r: bool)
        ensures
            r == self.valid_spec(pulse),
    ;
}

} // verus!
