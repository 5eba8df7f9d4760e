//! The generator-critic evolutionary loop.
//!
//! `GeneratorCriticLoop` repeatedly asks a generator for candidates, scores
//! them with a critic suite, and keeps a champion as the running best only
//! when its composite score strictly exceeds the incumbent's — ties keep the
//! incumbent, so the accepted best never worsens.

use vstd::prelude::*;
use crate::critics::{best_index, lemma_best_index_maximal, CriticSuite, suite_score};
use crate::field::FractalField;
use crate::looprep::LoopReport;
use crate::traits::{Critic, Generator};

verus! {

/// The per-iteration champion scores of a history.
pub open spec fn history_scores(h: Seq<(FractalField, i128)>) -> Seq<int> {
    h.map_values(|p: (FractalField, i128)| p.1 as int)
}

/// The running best over a sequence of champion scores under the
/// strict-improvement acceptance rule: a later score replaces the best only
/// when it is strictly greater.
pub open spec fn running_best(scores: Seq<int>) -> Option<int>
    decreases scores.len(),
{
    if scores.len() == 0 {
        None
    } else {
        let prev = running_best(scores.drop_last());
        if prev is None || scores.last() > prev.unwrap() {
            Some(scores.last())
        } else {
            prev
        }
    }
}

/// The accepted running best is monotonically non-decreasing across
/// iterations: once a best exists after `i` champions, a best exists after
/// any later point `j`, and it never scores lower — even though individual
/// history entries may.
pub proof fn lemma_running_best_monotone(scores: Seq<int>, i: int, j: int)
    requires
        0 <= i <= j <= scores.len(),
        running_best(scores.subrange(0, i)) is Some,
    ensures
        running_best(scores.subrange(0, j)) is Some,
        running_best(scores.subrange(0, i)).unwrap()
            <= running_best(scores.subrange(0, j)).unwrap(),
    decreases j - i,
{
    if i < j {
        lemma_running_best_monotone(scores, i, j - 1);
        assert(scores.subrange(0, j).drop_last() =~= scores.subrange(0, j - 1));
    }
}

/// A running best exists exactly when at least one champion was recorded.
pub proof fn lemma_running_best_some(scores: Seq<int>)
    ensures
        running_best(scores) is Some <==> scores.len() > 0,
    decreases scores.len(),
{
    if scores.len() > 0 {
        lemma_running_best_some(scores.drop_last());
    }
}

/// Manages an evolutionary loop that generates and evaluates candidates.
pub struct GeneratorCriticLoop<G: Generator, C: Critic> {
    /// The generator responsible for initial and mutated candidates.
    pub generator: G,
    /// The suite of critics used to score and select candidates.
    pub critic_suite: CriticSuite<C>,
    /// The total number of iterations to run.
    pub iterations: usize,
}

impl<G: Generator, C: Critic> GeneratorCriticLoop<G, C> {
    /// Whether `f` is a champion of the population `pop`: some member has
    /// `f`'s edges, and no member scores higher.
    pub open spec fn champion_of(&self, pop: Seq<FractalField>, f: FractalField) -> bool {
        &&& exists|j: int| 0 <= j < pop.len() && (#[trigger] pop[j]).edges@ == f.edges@
        &&& forall|i: int| 0 <= i < pop.len()
            ==> suite_score(self.critic_suite.critics@, (#[trigger] pop[i]).edges@)
                <= suite_score(self.critic_suite.critics@, f.edges@)
    }

    /// What a returned best means: it is the champion of a population the
    /// generator produced — either an initial population, or one bred from
    /// a parent that the champion strictly out-scores, which is the
    /// strict-improvement acceptance rule.
    pub open spec fn produced_best(&self, f: FractalField) -> bool {
        exists|pop: Seq<FractalField>| {
            &&& #[trigger] self.champion_of(pop, f)
            &&& {
                ||| self.generator.generate_post(pop)
                ||| exists|parent: FractalField| {
                    &&& #[trigger] self.generator.mutate_post(parent, pop)
                    &&& suite_score(self.critic_suite.critics@, parent.edges@)
                        < suite_score(self.critic_suite.critics@, f.edges@)
                }
            }
        }
    }

    /// Runs the evolutionary loop and returns the best field found, or
    /// nothing when no iteration produced a candidate — in particular when
    /// the iteration count is zero or every population came back empty. A
    /// returned field is the champion of a population the generator
    /// produced, accepted under the strict-improvement rule.
    pub fn run(&self) -> (r: Option<FractalField>)
        requires
            self.generator.wf(),
        ensures
            self.iterations == 0 ==> r is None,
            self.generator.spawns_nonempty() && self.iterations > 0 ==> r is Some,
            r matches Some(f) ==> self.produced_best(f),
    {
        let mut best_field: Option<FractalField> = None;
        let mut it: usize = 0;
        while it < self.iterations
            invariant
                self.generator.wf(),
                it <= self.iterations,
                it == 0 ==> best_field is None,
                self.generator.spawns_nonempty() && it > 0 ==> best_field is Some,
                best_field matches Some(f) ==> self.produced_best(f),
            decreases self.iterations - it,
        {
            let candidates: Vec<FractalField> = match &best_field {
                Some(f) => self.generator.mutate(f),
                None => self.generator.generate(),
            };
            let selected: Option<&FractalField> = self.critic_suite.select_best(
                candidates.as_slice());
            match selected {
                Some(best_candidate) => {
                    let is_improvement: bool = match &best_field {
                        Some(current_best) => {
                            let champ_score: i128 = self.critic_suite.score(best_candidate);
                            let cur_score: i128 = self.critic_suite.score(current_best);
                            champ_score > cur_score
                        },
                        None => true,
                    };
                    if is_improvement {
                        let accepted: FractalField = best_candidate.clone();
                        proof {
                            let cs = self.critic_suite.critics@;
                            let pop = candidates@;
                            let bi = best_index(cs, pop);
                            lemma_best_index_maximal(cs, pop);
                            assert(pop[bi].edges@ == accepted.edges@);
                            assert(self.champion_of(pop, accepted));
                            if best_field is Some {
                                let parent = best_field.unwrap();
                                assert(self.generator.mutate_post(parent, pop));
                                assert(suite_score(cs, parent.edges@)
                                    < suite_score(cs, accepted.edges@));
                            } else {
                                assert(self.generator.generate_post(pop));
                            }
                            assert(self.produced_best(accepted));
                        }
                        best_field = Some(accepted);
                    }
                },
                None => {},
            }
            it = it + 1;
        }
        best_field
    }

    /// Runs the loop and returns a full report: the best field, its score,
    /// and the champion of every iteration whose population was non-empty.
    /// Every history entry carries its own composite score, the final best
    /// score is the running best of the history under the
    /// strict-improvement rule, the reported best appears in the history
    /// with that score, and with a generator that always produces
    /// candidates the history holds exactly one entry per iteration.
    pub fn run_with_report(&self) -> (r: Option<LoopReport>)
        requires
            self.generator.wf(),
        ensures
            self.iterations == 0 ==> r is None,
            self.generator.spawns_nonempty() && self.iterations > 0 ==> r is Some,
            r matches Some(rep) ==> {
                &&& rep.history@.len() <= self.iterations
                &&& (self.generator.spawns_nonempty() ==> rep.history@.len() == self.iterations)
                &&& forall|k: int| 0 <= k < rep.history@.len()
                    ==> (#[trigger] rep.history@[k]).1 as int
                        == suite_score(self.critic_suite.critics@, rep.history@[k].0.edges@)
                &&& rep.best_score as int
                    == suite_score(self.critic_suite.critics@, rep.best_field.edges@)
                &&& Some(rep.best_score as int) == running_best(history_scores(rep.history@))
                &&& exists|k: int|
                    #![trigger rep.history@[k]]
                    0 <= k < rep.history@.len()
                        && rep.history@[k].0.edges@ == rep.best_field.edges@
                        && rep.history@[k].1 == rep.best_score
            },
    {
        let ghost cs = self.critic_suite.critics@;
        let mut best_field: Option<FractalField> = None;
        let mut history: Vec<(FractalField, i128)> = Vec::new();
        let ghost mut best_at: int = 0;
        let mut it: usize = 0;
        while it < self.iterations
            invariant
                self.generator.wf(),
                it <= self.iterations,
                cs == self.critic_suite.critics@,
                history@.len() <= it,
                self.generator.spawns_nonempty() ==> history@.len() == it,
                forall|k: int| 0 <= k < history@.len()
                    ==> (#[trigger] history@[k]).1 as int == suite_score(cs, history@[k].0.edges@),
                best_field is Some <==> history@.len() > 0,
                best_field matches Some(f) ==> Some(suite_score(cs, f.edges@))
                    == running_best(history_scores(history@)),
                best_field matches Some(f) ==> 0 <= best_at < history@.len()
                    && history@[best_at].0.edges@ == f.edges@
                    && history@[best_at].1 as int == suite_score(cs, f.edges@),
            decreases self.iterations - it,
        {
            let candidates: Vec<FractalField> = match &best_field {
                Some(f) => self.generator.mutate(f),
                None => self.generator.generate(),
            };
            let selected: Option<&FractalField> = self.critic_suite.select_best(
                candidates.as_slice());
            match selected {
                Some(best_candidate) => {
                    let score: i128 = self.critic_suite.score(best_candidate);
                    let is_improvement: bool = match &best_field {
                        Some(current_best) => {
                            let cur_score: i128 = self.critic_suite.score(current_best);
                            score > cur_score
                        },
                        None => true,
                    };
                    let ghost old_history = history@;
                    history.push((best_candidate.clone(), score));
                    proof {
                        assert(history_scores(history@).drop_last()
                            =~= history_scores(old_history));
                        assert(history_scores(history@).last() == score as int);
                    }
                    if is_improvement {
                        best_field = Some(best_candidate.clone());
                        proof {
                            best_at = history@.len() - 1;
                        }
                    }
                },
                None => {},
            }
            it = it + 1;
        }
        match best_field {
            Some(f) => {
                let best_score: i128 = self.critic_suite.score(&f);
                proof {
                    assert(history@[best_at].0.edges@ == f.edges@);
                    assert(history@[best_at].1 == best_score);
                }
                Some(LoopReport { best_field: f, best_score, history })
            },
            None => None,
        }
    }
}

} // verus!
