//! Weighted stochastic mutation.
//!
//! `MutationSuite` holds an ordered collection of weighted mutation
//! strategies. Each `mutate` call draws one strategy by roulette-wheel
//! selection: a uniform draw in `[0, total weight)` scans the registry in
//! order, subtracting each weight, and the first strategy whose weight
//! exceeds what remains of the draw is applied. The chance of strategy `i`
//! is exactly `weight_i / total`.

use vstd::prelude::*;
use crate::field::FractalField;
use crate::random::rand_below;
use crate::traits::MutationStrategy;

verus! {

/// The sum of the first `i` weights.
pub open spec fn wsum(ws: Seq<int>, i: int) -> int
    decreases i,
{
    if i <= 0 {
        0
    } else {
        wsum(ws, i - 1) + ws[i - 1]
    }
}

/// Whether the roulette scan with draw `d` stops at index `i`: the weights
/// before `i` have been subtracted without stopping, and what remains of the
/// draw is below the weight at `i`.
pub open spec fn picks(ws: Seq<int>, d: int, i: int) -> bool {
    &&& 0 <= i < ws.len()
    &&& d - wsum(ws, i) < ws[i]
    &&& forall|j: int| 0 <= j < i ==> d - #[trigger] wsum(ws, j) >= ws[j]
}

/// A prefix sum of i32 weights grows by at most 2^31 per element.
proof fn lemma_wsum_bound(ws: Seq<int>, i: int)
    requires
        0 <= i <= ws.len(),
        forall|j: int| 0 <= j < ws.len() ==> i32::MIN as int <= #[trigger] ws[j] <= i32::MAX as int,
    ensures
        -(i * 0x8000_0000) <= wsum(ws, i),
        wsum(ws, i) <= i * 0x8000_0000,
    decreases i,
{
    if i > 0 {
        lemma_wsum_bound(ws, i - 1);
    }
}

/// With exactly one strategy at positive weight, every draw picks it: the
/// scan stops at index zero for each value the draw can take, so that
/// strategy is always the one invoked.
pub proof fn lemma_single_strategy_always_picked(ws: Seq<int>, d: int)
    requires
        ws.len() == 1,
        ws[0] > 0,
        0 <= d < ws[0],
    ensures
        picks(ws, d, 0),
        forall|i: int| #[trigger] picks(ws, d, i) ==> i == 0,
{
    assert(wsum(ws, 0) == 0);
}

/// A collection of weighted mutation strategies.
pub struct MutationSuite<S: MutationStrategy> {
    /// The registry: each strategy together with its weight in centi-units.
    pub strategies: Vec<(S, i32)>,
}

impl<S: MutationStrategy> MutationSuite<S> {
    /// The registered weights as mathematical values.
    pub open spec fn weights(&self) -> Seq<int> {
        self.strategies@.map_values(|p: (S, i32)| p.1 as int)
    }

    /// The total of all registered weights.
    pub open spec fn total_weight(&self) -> int {
        wsum(self.weights(), self.weights().len() as int)
    }

    /// A suite is usable when it is empty or its total weight is positive
    /// (and small enough to draw from). Supplying positive weights is the
    /// caller's responsibility; a non-positive total is left undefined.
    pub open spec fn wf(&self) -> bool {
        self.strategies@.len() == 0
            || (0 < self.total_weight() && self.total_weight() <= u64::MAX as int)
    }

    /// A new, empty suite.
    pub fn new() -> (r: Self)
        ensures
            r.strategies@.len() == 0,
            r.wf(),
    {
        MutationSuite { strategies: Vec::new() }
    }

    /// Appends a strategy with its weight.
    pub fn add_strategy(&mut self, strategy: S, weight: i32)
        ensures
            final(self).strategies@ == old(self).strategies@.push((strategy, weight)),
    {
        self.strategies.push((strategy, weight));
    }

    /// What one `mutate` call promises of its output: with no strategies
    /// the input comes back unchanged; otherwise some draw below the total
    /// weight picked a strategy by the roulette scan, and that strategy's
    /// own postcondition holds of the output.
    pub open spec fn mutate_result_ok(&self, input: FractalField, output: FractalField) -> bool {
        if self.strategies@.len() == 0 {
            output.edges@ == input.edges@
        } else {
            exists|i: int, d: int| {
                &&& 0 <= d < self.total_weight()
                &&& #[trigger] picks(self.weights(), d, i)
                &&& self.strategies@[i].0.mutate_post(&input, &output)
            }
        }
    }

    /// Mutates a field by drawing one strategy at random, with probability
    /// proportional to its weight, and applying it. With no strategies
    /// registered the input comes back unchanged.
    pub fn mutate(&self, field: &FractalField) -> (r: FractalField)
        requires
            self.wf(),
        ensures
            self.mutate_result_ok(*field, r),
    {
        let n: usize = self.strategies.len();
        if n == 0 {
            return field.clone();
        }
        let ghost ws = self.weights();

        // The total weight, exactly.
        let mut total: i128 = 0;
        let mut k: usize = 0;
        while k < n
            invariant
                k <= n,
                n == self.strategies@.len(),
                ws == self.weights(),
                total as int == wsum(ws, k as int),
            decreases n - k,
        {
            proof {
                lemma_wsum_bound(ws, k as int);
            }
            total = total + self.strategies[k].1 as i128;
            k = k + 1;
        }

        // A uniform draw below the total; the well-formedness condition
        // makes the range non-empty.
        let draw: u64 = rand_below(total as u64);
        let ghost d = draw as int;

        // The roulette scan: subtract weights in order until one exceeds
        // what remains of the draw.
        let mut choice: i128 = draw as i128;
        let mut j: usize = 0;
        while j < n
            invariant
                j <= n,
                n == self.strategies@.len(),
                ws == self.weights(),
                0 <= d < self.total_weight(),
                self.total_weight() <= u64::MAX as int,
                choice as int == d - wsum(ws, j as int),
                forall|m: int| 0 <= m < j ==> d - #[trigger] wsum(ws, m) >= ws[m],
            decreases n - j,
        {
            proof {
                lemma_wsum_bound(ws, j as int);
            }
            let w: i32 = self.strategies[j].1;
            if choice < w as i128 {
                proof {
                    assert(picks(ws, d, j as int));
                }
                return self.strategies[j].0.mutate(field);
            }
            choice = choice - w as i128;
            j = j + 1;
        }

        // Unreachable: the scan always stops while the draw is below the
        // total weight.
        proof {
            assert(d - wsum(ws, n as int - 1) >= ws[n as int - 1]);
            assert(wsum(ws, n as int) == wsum(ws, n as int - 1) + ws[n as int - 1]);
            assert(false);
        }
        field.clone()
    }
}

} // verus!
