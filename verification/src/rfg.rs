//! A generator that produces fields with random properties.
//!
//! The initial populations hold fields of five random unit edges; the bred
//! populations hold variants of a parent whose payloads are jittered within
//! the configured strength. Both shapes are pinned by the generator's
//! content postconditions.

use vstd::prelude::*;
use crate::complex::Complex;
use crate::field::FractalField;
use crate::graphedge::GraphEdge;
use crate::random::rand_between;
use crate::stochastic::{data_jittered, jitter_amplitude, jitter_phase, lemma_jitter_composition};
use crate::traits::Generator;
use crate::vec3::Vec3;

verus! {

/// A generator that creates a population of fields with random edge data.
pub struct RandomFieldGenerator {
    /// The number of candidates per `generate` or `mutate` call.
    pub count: usize,
    /// The magnitude of the random changes applied during mutation, in
    /// centi-units around one unit.
    pub mutation_strength: i32,
}

/// The number of random edges in each generated field.
pub const EDGES_PER_FIELD: usize = 5;

/// What every randomly generated edge looks like: a unit edge along the x
/// axis at a depth below five, with origin and payload components within
/// one unit of zero.
pub open spec fn random_edge_ok(e: GraphEdge) -> bool {
    &&& -100 <= e.origin.x < 100
    &&& -100 <= e.origin.y < 100
    &&& -100 <= e.origin.z < 100
    &&& e.direction == (Vec3 { x: 100, y: 0, z: 0 })
    &&& e.length == 100
    &&& e.depth < 5
    &&& -100 <= e.data.re < 100
    &&& -100 <= e.data.im < 100
}

/// What one bred variant looks like: the parent's edge count and geometry,
/// with each payload scaled within `strength` centi-units of one unit and
/// rotated by at most one exact quarter turn.
pub open spec fn mutated_variant(strength: int, parent: FractalField, out: FractalField) -> bool {
    &&& out.edges@.len() == parent.edges@.len()
    &&& forall|i: int| 0 <= i < parent.edges@.len() ==> {
        &&& (#[trigger] out.edges@[i]).origin == parent.edges@[i].origin
        &&& out.edges@[i].direction == parent.edges@[i].direction
        &&& out.edges@[i].length == parent.edges@[i].length
        &&& out.edges@[i].depth == parent.edges@[i].depth
        &&& data_jittered(strength, 1, parent.edges@[i].data, out.edges@[i].data)
    }
}

impl Generator for RandomFieldGenerator {
    /// Random generation needs no configuration beyond its fields.
    open spec fn wf(&self) -> bool {
        true
    }

    /// Populations are non-empty whenever the configured count is positive.
    open spec fn spawns_nonempty(&self) -> bool {
        self.count > 0
    }

    /// An initial population holds exactly `count` fields of five random
    /// edges each.
    open spec fn generate_post(&self, out: Seq<FractalField>) -> bool {
        &&& out.len() == self.count
        &&& forall|k: int| 0 <= k < out.len() ==> {
            &&& (#[trigger] out[k]).edges@.len() == EDGES_PER_FIELD
            &&& forall|e: int| 0 <= e < out[k].edges@.len()
                ==> random_edge_ok(#[trigger] out[k].edges@[e])
        }
    }

    /// A bred population holds exactly `count` jittered variants of the
    /// parent.
    open spec fn mutate_post(&self, parent: FractalField, out: Seq<FractalField>) -> bool {
        &&& out.len() == self.count
        &&& forall|k: int| 0 <= k < out.len()
            ==> mutated_variant(self.mutation_strength as int, parent, #[trigger] out[k])
    }

    /// An initial population: each field holds five random edges of unit
    /// length along the x axis, at a random depth below five, with a random
    /// payload within one unit of zero.
    fn generate(&self) -> (r: Vec<FractalField>)
        ensures
            self.spawns_nonempty() ==> r@.len() > 0,
            self.generate_post(r@),
    {
        let mut out: Vec<FractalField> = Vec::new();
        let mut k: usize = 0;
        while k < self.count
            invariant
                k <= self.count,
                out@.len() == k,
                forall|m: int| 0 <= m < k ==> {
                    &&& (#[trigger] out@[m]).edges@.len() == EDGES_PER_FIELD
                    &&& forall|e: int| 0 <= e < out@[m].edges@.len()
                        ==> random_edge_ok(#[trigger] out@[m].edges@[e])
                },
            decreases self.count - k,
        {
            let mut edges: Vec<GraphEdge> = Vec::new();
            let mut e: usize = 0;
            while e < EDGES_PER_FIELD
                invariant
                    e <= EDGES_PER_FIELD,
                    edges@.len() == e,
                    forall|i: int| 0 <= i < e ==> random_edge_ok(#[trigger] edges@[i]),
                decreases EDGES_PER_FIELD - e,
            {
                edges.push(GraphEdge {
                    origin: Vec3::random(),
                    direction: Vec3::unit_x(),
                    length: 100,
                    depth: rand_between(0, 5) as u32,
                    data: Complex::new(
                        rand_between(-100, 100) as i32,
                        rand_between(-100, 100) as i32,
                    ),
                });
                e = e + 1;
            }
            out.push(FractalField { edges });
            k = k + 1;
        }
        out
    }

    /// A new generation: `count` variants of the parent, each with the
    /// amplitude and phase of every payload stochastically altered within
    /// the configured strength.
    fn mutate(&self, field: &FractalField) -> (r: Vec<FractalField>)
        ensures
            self.spawns_nonempty() ==> r@.len() > 0,
            self.mutate_post(*field, r@),
    {
        let mut out: Vec<FractalField> = Vec::new();
        let mut k: usize = 0;
        while k < self.count
            invariant
                k <= self.count,
                out@.len() == k,
                forall|m: int| 0 <= m < k
                    ==> mutated_variant(self.mutation_strength as int, *field, #[trigger] out@[m]),
            decreases self.count - k,
        {
            let n: usize = field.edges.len();
            let mut edges: Vec<GraphEdge> = Vec::new();
            let mut e: usize = 0;
            while e < n
                invariant
                    e <= n,
                    n == field.edges@.len(),
                    edges@.len() == e,
                    forall|i: int| 0 <= i < e ==> {
                        &&& (#[trigger] edges@[i]).origin == field.edges@[i].origin
                        &&& edges@[i].direction == field.edges@[i].direction
                        &&& edges@[i].length == field.edges@[i].length
                        &&& edges@[i].depth == field.edges@[i].depth
                        &&& data_jittered(
                            self.mutation_strength as int,
                            1,
                            field.edges@[i].data,
                            edges@[i].data,
                        )
                    },
                decreases n - e,
            {
                let edge: GraphEdge = field.edges[e];
                let with_amp: Complex = jitter_amplitude(edge.data, self.mutation_strength);
                let with_phase: Complex = jitter_phase(with_amp, 1);
                proof {
                    lemma_jitter_composition(
                        self.mutation_strength as int,
                        1,
                        edge.data,
                        with_amp,
                        with_phase,
                    );
                }
                edges.push(GraphEdge { data: with_phase, ..edge });
                e = e + 1;
            }
            out.push(FractalField { edges });
            k = k + 1;
        }
        out
    }
}

} // verus!
