//! A generator that produces candidates by applying a mutation suite.
//!
//! This generator is the standard setup for the evolutionary loop: the
//! initial population is a single identity field, and each later population
//! holds `count` independent mutations of the parent, each pinned by the
//! suite's own roulette postcondition.

use vstd::prelude::*;
use crate::field::{identity_edge, FractalField};
use crate::mutation::MutationSuite;
use crate::traits::{Generator, MutationStrategy};

verus! {

/// A generator that creates a population of fields by mutating a parent.
pub struct EvolutionaryGenerator<S: MutationStrategy> {
    /// The suite of mutation operations to apply.
    pub mutations: MutationSuite<S>,
    /// The number of new candidates per `mutate` call.
    pub count: usize,
}

impl<S: MutationStrategy> Generator for EvolutionaryGenerator<S> {
    /// The generator is usable whenever its mutation suite is.
    open spec fn wf(&self) -> bool {
        self.mutations.wf()
    }

    /// Populations are non-empty whenever the configured count is positive
    /// (the seed population always is).
    open spec fn spawns_nonempty(&self) -> bool {
        self.count > 0
    }

    /// The seed population is exactly one identity field.
    open spec fn generate_post(&self, out: Seq<FractalField>) -> bool {
        &&& out.len() == 1
        &&& out[0].edges@ == seq![identity_edge()]
    }

    /// A bred population holds exactly `count` fields, each the outcome of
    /// one roulette-selected mutation of the parent.
    open spec fn mutate_post(&self, parent: FractalField, out: Seq<FractalField>) -> bool {
        &&& out.len() == self.count
        &&& forall|k: int| 0 <= k < out.len()
            ==> self.mutations.mutate_result_ok(parent, #[trigger] out[k])
    }

    /// The seed population: a single identity field.
    fn generate(&self) -> (r: Vec<FractalField>)
        ensures
            self.spawns_nonempty() ==> r@.len() > 0,
            self.generate_post(r@),
    {
        let mut seed: Vec<FractalField> = Vec::new();
        seed.push(FractalField::one());
        seed
    }

    /// A new generation: `count` independent mutations of the parent.
    fn mutate(&self, field: &FractalField) -> (r: Vec<FractalField>)
        ensures
            self.spawns_nonempty() ==> r@.len() > 0,
            self.mutate_post(*field, r@),
    {
        let mut out: Vec<FractalField> = Vec::new();
        let mut k: usize = 0;
        while k < self.count
            invariant
                k <= self.count,
                out@.len() == k,
                self.mutations.wf(),
                forall|m: int| 0 <= m < k
                    ==> self.mutations.mutate_result_ok(*field, #[trigger] out@[m]),
            decreases self.count - k,
        {
            out.push(self.mutations.mutate(field));
            k = k + 1;
        }
        out
    }
}

} // verus!
