//! A system for evaluating and scoring fields.
//!
//! `CriticSuite` manages an ordered collection of weighted critics. The
//! composite score of a field is the exact sum of each critic's score times
//! its weight, in registration order, and the suite can select the best of a
//! batch of candidates, where ties go to the last candidate encountered.

use vstd::prelude::*;
use vstd::string::StringExecFns;
use crate::field::FractalField;
use crate::signature::FractalSignature;
use crate::traits::Critic;

verus! {

/// The composite score of a field under a sequence of weighted critics:
/// the exact sum of `score * weight` over the registry, in order.
pub open spec fn suite_score<C: Critic>(critics: Seq<(C, i32)>, edges: Seq<crate::graphedge::GraphEdge>) -> int
    decreases critics.len(),
{
    if critics.len() == 0 {
        0
    } else {
        suite_score(critics.drop_last(), edges)
            + critics.last().0.score_spec(edges) * critics.last().1
    }
}

/// The index of the critic with the numerically largest weight; ties go to
/// the critic registered last.
pub open spec fn heaviest_critic<C: Critic>(critics: Seq<(C, i32)>) -> int
    decreases critics.len(),
{
    if critics.len() <= 1 {
        0
    } else if critics.last().1 >= critics[heaviest_critic(critics.drop_last())].1 {
        critics.len() - 1
    } else {
        heaviest_critic(critics.drop_last())
    }
}

/// The index of the best-scoring candidate under the given critics; ties go
/// to the candidate encountered last.
pub open spec fn best_index<C: Critic>(critics: Seq<(C, i32)>, fields: Seq<FractalField>) -> int
    decreases fields.len(),
{
    if fields.len() <= 1 {
        0
    } else if suite_score(critics, fields.last().edges@)
        >= suite_score(critics, fields[best_index(critics, fields.drop_last())].edges@) {
        fields.len() - 1
    } else {
        best_index(critics, fields.drop_last())
    }
}

/// Every composite score is bounded by the registry size times the largest
/// possible single term, so the running sum never leaves the i128 range.
pub(crate) proof fn lemma_suite_score_bound<C: Critic>(critics: Seq<(C, i32)>, edges: Seq<crate::graphedge::GraphEdge>)
    ensures
        -(critics.len() as int) * 0x4000_0000_0000_0000 <= suite_score(critics, edges),
        suite_score(critics, edges) <= (critics.len() as int) * 0x4000_0000_0000_0000,
    decreases critics.len(),
{
    if critics.len() == 0 {
    } else {
        let prefix = critics.drop_last();
        lemma_suite_score_bound(prefix, edges);
        critics.last().0.score_in_range(edges);
        let s = critics.last().0.score_spec(edges);
        let w = critics.last().1 as int;
        assert(-0x4000_0000_0000_0000 <= s * w <= 0x4000_0000_0000_0000) by (nonlinear_arith)
            requires
                i32::MIN <= s <= i32::MAX,
                i32::MIN <= w <= i32::MAX,
        ;
        assert((prefix.len() as int) * 0x4000_0000_0000_0000 + 0x4000_0000_0000_0000
            == (critics.len() as int) * 0x4000_0000_0000_0000) by (nonlinear_arith)
            requires prefix.len() + 1 == critics.len();
    }
}

/// The best index lies in range, and no candidate scores above the one it
/// names: `best_index` really is an argmax (the last one).
pub proof fn lemma_best_index_maximal<C: Critic>(
    critics: Seq<(C, i32)>,
    fields: Seq<FractalField>,
)
    requires
        fields.len() > 0,
    ensures
        0 <= best_index(critics, fields) < fields.len(),
        forall|i: int| 0 <= i < fields.len()
            ==> suite_score(critics, (#[trigger] fields[i]).edges@)
                <= suite_score(critics, fields[best_index(critics, fields)].edges@),
    decreases fields.len(),
{
    if fields.len() > 1 {
        let prefix = fields.drop_last();
        lemma_best_index_maximal(critics, prefix);
        let bp = best_index(critics, prefix);
        let b = best_index(critics, fields);
        assert forall|i: int| 0 <= i < fields.len()
            implies suite_score(critics, (#[trigger] fields[i]).edges@)
                <= suite_score(critics, fields[b].edges@) by {
            if i < fields.len() - 1 {
                assert(fields[i] == prefix[i]);
                assert(suite_score(critics, prefix[i].edges@)
                    <= suite_score(critics, prefix[bp].edges@));
                assert(prefix[bp] == fields[bp]);
            }
        }
    }
}

/// A composite score fits in i128 whenever the registry fits in memory.
pub proof fn lemma_suite_score_fits<C: Critic>(critics: Seq<(C, i32)>, edges: Seq<crate::graphedge::GraphEdge>)
    requires
        critics.len() <= u64::MAX,
    ensures
        (i128::MIN as int) < suite_score(critics, edges),
        suite_score(critics, edges) < (i128::MAX as int),
{
    lemma_suite_score_bound(critics, edges);
    assert((critics.len() as int) * 0x4000_0000_0000_0000
        <= (u64::MAX as int) * 0x4000_0000_0000_0000) by (nonlinear_arith)
        requires critics.len() <= u64::MAX;
}

/// An ordered collection of weighted critics giving one composite score.
pub struct CriticSuite<C: Critic> {
    /// The registry: each critic together with its weight in centi-units.
    pub critics: Vec<(C, i32)>,
}

impl<C: Critic> CriticSuite<C> {
    /// A new, empty suite.
    pub fn new() -> (r: Self)
        ensures
            r.critics@.len() == 0,
    {
        CriticSuite { critics: Vec::new() }
    }

    /// Appends a critic with its weight; neither the sign nor the range of
    /// the weight is validated.
    pub fn add_critic(&mut self, critic: C, weight: i32)
        ensures
            final(self).critics@ == old(self).critics@.push((critic, weight)),
    {
        self.critics.push((critic, weight));
    }

    /// The composite score of a field: exactly the sum of each critic's
    /// score times its weight, in registration order.
    pub fn score(&self, field: &FractalField) -> (r: i128)
        ensures
            r as int == suite_score(self.critics@, field.edges@),
    {
        let n: usize = self.critics.len();
        let mut total: i128 = 0;
        let mut k: usize = 0;
        while k < n
            invariant
                k <= n,
                n == self.critics@.len(),
                total as int == suite_score(self.critics@.subrange(0, k as int), field.edges@),
            decreases n - k,
        {
            let s: i32 = self.critics[k].0.score(field);
            let w: i32 = self.critics[k].1;
            proof {
                let prefix = self.critics@.subrange(0, k as int);
                let next = self.critics@.subrange(0, k as int + 1);
                assert(next.drop_last() =~= prefix);
                lemma_suite_score_bound(prefix, field.edges@);
                lemma_suite_score_bound(next, field.edges@);
                assert((prefix.len() as int) * 0x4000_0000_0000_0000
                    <= (u64::MAX as int) * 0x4000_0000_0000_0000) by (nonlinear_arith)
                    requires prefix.len() <= u64::MAX;
                assert((next.len() as int) * 0x4000_0000_0000_0000
                    <= (u64::MAX as int) * 0x4000_0000_0000_0000) by (nonlinear_arith)
                    requires next.len() <= u64::MAX;
            }
            total = total + s as i128 * w as i128;
            k = k + 1;
        }
        proof {
            assert(self.critics@.subrange(0, n as int) =~= self.critics@);
        }
        total
    }

    /// Classifies a field by delegating to the critic with the largest
    /// weight (ties to the last registered); an empty suite returns the
    /// fixed label "unclassified".
    pub fn classify(&self, field: &FractalField) -> (r: String)
        ensures
            self.critics@.len() == 0 ==> r@ == "unclassified"@,
            self.critics@.len() > 0 ==> r@ == self.critics@[heaviest_critic(self.critics@)]
                .0.classify_spec(crate::field::spec_signature(field.edges@)),
    {
        let n: usize = self.critics.len();
        if n == 0 {
            return String::from_str("unclassified");
        }
        let mut best: usize = 0;
        let mut k: usize = 1;
        while k < n
            invariant
                1 <= k <= n,
                n == self.critics@.len(),
                best < k,
                best == heaviest_critic(self.critics@.subrange(0, k as int)),
            decreases n - k,
        {
            proof {
                let prefix = self.critics@.subrange(0, k as int);
                let next = self.critics@.subrange(0, k as int + 1);
                assert(next.drop_last() =~= prefix);
            }
            if self.critics[k].1 >= self.critics[best].1 {
                best = k;
            }
            k = k + 1;
        }
        proof {
            assert(self.critics@.subrange(0, n as int) =~= self.critics@);
        }
        let sig: FractalSignature = field.signature();
        self.critics[best].0.classify(&sig)
    }

    /// Selects the best field from a batch of candidates by composite
    /// score. An empty batch yields nothing; when several candidates share
    /// the maximum score, the last one encountered wins, and no candidate
    /// scores above it.
    pub fn select_best<'a>(&self, fields: &'a [FractalField]) -> (r: Option<&'a FractalField>)
        ensures
            fields@.len() == 0 ==> r is None,
            fields@.len() > 0 ==> ({
                &&& r is Some
                &&& *r.unwrap() == fields@[best_index(self.critics@, fields@)]
                &&& suite_score(self.critics@, r.unwrap().edges@)
                    == suite_score(self.critics@, fields@[best_index(self.critics@, fields@)].edges@)
                &&& forall|i: int| 0 <= i < fields@.len()
                    ==> suite_score(self.critics@, (#[trigger] fields@[i]).edges@)
                        <= suite_score(self.critics@, r.unwrap().edges@)
            }),
    {
        let n: usize = fields.len();
        if n == 0 {
            return None;
        }
        let mut best: usize = 0;
        let mut best_score: i128 = self.score(&fields[0]);
        let mut k: usize = 1;
        while k < n
            invariant
                1 <= k <= n,
                n == fields@.len(),
                best < k,
                best == best_index(self.critics@, fields@.subrange(0, k as int)),
                best_score as int == suite_score(self.critics@, fields@[best as int].edges@),
            decreases n - k,
        {
            proof {
                let prefix = fields@.subrange(0, k as int);
                let next = fields@.subrange(0, k as int + 1);
                assert(next.drop_last() =~= prefix);
            }
            let score_k: i128 = self.score(&fields[k]);
            if score_k >= best_score {
                best = k;
                best_score = score_k;
            }
            k = k + 1;
        }
        proof {
            assert(fields@.subrange(0, n as int) =~= fields@);
            lemma_best_index_maximal(self.critics@, fields@);
        }
        Some(&fields[best])
    }
}

} // verus!
