//! The report returned by a full evolutionary run.

use vstd::prelude::*;
use crate::field::FractalField;

verus! {

/// The final results and history of a `GeneratorCriticLoop` run: the best
/// field found, its composite score, and one entry per iteration holding
/// that iteration's champion and score — the champion of an iteration need
/// not be the running best.
#[derive(Debug)]
pub struct LoopReport {
    /// The best field found during the entire run.
    pub best_field: FractalField,
    /// The composite score of `best_field`.
    pub best_score: i128,
    /// The best candidate of each iteration, with its score.
    pub history: Vec<(FractalField, i128)>,
}

} // verus!
