//! A filtering system for fractals and semantic units.
//!
//! `ResonanceFilter` implementations select fractals by their laws, scores,
//! tags or metadata, and filters can be composed with and/or/not logic.

use vstd::prelude::*;
use vstd::string::{StrSliceExecFns, StringExecFns};
use crate::resonance::{
    law_description, law_eq, unit_eq, Resonance, ResonanceFilter, ResonanceLaw, SemanticUnit,
};
use crate::text::str_eq;
use crate::traits::{ft_eq, CollectionMember, Fractal, FractalCollection, FractalType};

verus! {

/// The tag views of a fractal value.
pub open spec fn ft_tags(f: FractalType) -> Seq<Seq<char>> {
    match f {
        FractalType::Mandelbrot(m) => m.tags.spec_tags(),
        FractalType::IFS(i) => i.tags.spec_tags(),
    }
}

/// The metadata domain of a fractal value.
pub open spec fn ft_domain(f: FractalType) -> Seq<char> {
    match f {
        FractalType::Mandelbrot(m) => m.metadata.domain@,
        FractalType::IFS(i) => i.metadata.domain@,
    }
}

/// Equal fractal values carry the same tags, domain, law and score.
pub proof fn lemma_ft_eq_same_views(a: FractalType, b: FractalType)
    requires
        ft_eq(&a, &b),
    ensures
        ft_tags(a) == ft_tags(b),
        ft_domain(a) == ft_domain(b),
        a.law_spec() == b.law_spec(),
        a.score_spec() == b.score_spec(),
{
}

/// Filters fractals by a list of allowed resonance laws.
pub struct LawFilter {
    pub allowed: Vec<ResonanceLaw>,
}

impl ResonanceFilter for LawFilter {
    /// A fractal passes when its law is among the allowed ones.
    open spec fn passes_spec(&self, fractal: FractalType) -> bool {
        exists|i: int| 0 <= i < self.allowed@.len()
            && law_eq(#[trigger] self.allowed@[i], fractal.law_spec())
    }

    /// A unit survives when its label names an allowed law.
    open spec fn keeps_spec(&self, unit: SemanticUnit) -> bool {
        exists|i: int| 0 <= i < self.allowed@.len()
            && law_description(#[trigger] self.allowed@[i]) == unit.label@
    }

    proof fn keeps_respects_unit_eq(&self, a: SemanticUnit, b: SemanticUnit) {
    }

    proof fn passes_respects_ft_eq(&self, a: FractalType, b: FractalType) {
        lemma_ft_eq_same_views(a, b);
    }

    fn passes(&self, fractal: &FractalType) -> (r: bool)
        ensures
            r == self.passes_spec(*fractal),
    {
        let law: ResonanceLaw = fractal.resonance_law();
        let n: usize = self.allowed.len();
        let mut k: usize = 0;
        while k < n
            invariant
                k <= n,
                n == self.allowed@.len(),
                law == fractal.law_spec(),
                forall|i: int| 0 <= i < k ==> !law_eq(#[trigger] self.allowed@[i], law),
            decreases n - k,
        {
            if self.allowed[k].same_law(&law) {
                return true;
            }
            k = k + 1;
        }
        false
    }

    fn keeps(&self, unit: &SemanticUnit) -> (r: bool)
        ensures
            r == self.keeps_spec(*unit),
    {
        let m: usize = self.allowed.len();
        let mut a: usize = 0;
        while a < m
            invariant
                a <= m,
                m == self.allowed@.len(),
                forall|i: int| 0 <= i < a
                    ==> law_description(#[trigger] self.allowed@[i]) != unit.label@,
            decreases m - a,
        {
            let label: String = self.allowed[a].description();
            if str_eq(unit.label.as_str(), label.as_str()) {
                return true;
            }
            a = a + 1;
        }
        false
    }

    fn apply(&self, units: &[SemanticUnit]) -> (r: Vec<SemanticUnit>)
        ensures
            r@.len() <= units@.len(),
            forall|i: int| 0 <= i < r@.len() ==> self.keeps_spec(#[trigger] r@[i]),
    {
        let n: usize = units.len();
        let mut out: Vec<SemanticUnit> = Vec::new();
        let mut k: usize = 0;
        while k < n
            invariant
                k <= n,
                n == units@.len(),
                out@.len() <= k,
                forall|i: int| 0 <= i < out@.len() ==> self.keeps_spec(#[trigger] out@[i]),
            decreases n - k,
        {
            if self.keeps(&units[k]) {
                out.push(units[k].clone());
                proof {
                    self.keeps_respects_unit_eq(out@[out@.len() - 1], units@[k as int]);
                }
            }
            k = k + 1;
        }
        out
    }
}

/// Filters fractals by a minimum resonance score.
pub struct ScoreFilter {
    /// The least score that passes, in centi-units.
    pub min_score: i64,
}

impl ResonanceFilter for ScoreFilter {
    /// A fractal passes when its score reaches the minimum.
    open spec fn passes_spec(&self, fractal: FractalType) -> bool {
        fractal.score_spec() >= self.min_score
    }

    /// Lacking a score of its own, a unit survives when its phase reaches
    /// the minimum.
    open spec fn keeps_spec(&self, unit: SemanticUnit) -> bool {
        unit.phase >= self.min_score
    }

    proof fn keeps_respects_unit_eq(&self, a: SemanticUnit, b: SemanticUnit) {
    }

    proof fn passes_respects_ft_eq(&self, a: FractalType, b: FractalType) {
        lemma_ft_eq_same_views(a, b);
    }

    fn passes(&self, fractal: &FractalType) -> (r: bool)
        ensures
            r == self.passes_spec(*fractal),
    {
        fractal.resonance_score() >= self.min_score
    }

    fn keeps(&self, unit: &SemanticUnit) -> (r: bool)
        ensures
            r == self.keeps_spec(*unit),
    {
        unit.phase >= self.min_score
    }

    fn apply(&self, units: &[SemanticUnit]) -> (r: Vec<SemanticUnit>)
        ensures
            r@.len() <= units@.len(),
            forall|i: int| 0 <= i < r@.len() ==> self.keeps_spec(#[trigger] r@[i]),
    {
        let n: usize = units.len();
        let mut out: Vec<SemanticUnit> = Vec::new();
        let mut k: usize = 0;
        while k < n
            invariant
                k <= n,
                n == units@.len(),
                out@.len() <= k,
                forall|i: int| 0 <= i < out@.len() ==> self.keeps_spec(#[trigger] out@[i]),
            decreases n - k,
        {
            if units[k].phase >= self.min_score {
                out.push(units[k].clone());
                proof {
                    self.keeps_respects_unit_eq(out@[out@.len() - 1], units@[k as int]);
                }
            }
            k = k + 1;
        }
        out
    }
}

/// Filters fractals that carry all of a given set of tags.
pub struct TagMatchFilter {
    pub required_tags: Vec<String>,
}

impl ResonanceFilter for TagMatchFilter {
    /// A fractal passes when every required tag is among its tags.
    open spec fn passes_spec(&self, fractal: FractalType) -> bool {
        forall|i: int| 0 <= i < self.required_tags@.len()
            ==> ft_tags(fractal).contains((#[trigger] self.required_tags@[i])@)
    }

    /// A unit survives when its fractal passes.
    open spec fn keeps_spec(&self, unit: SemanticUnit) -> bool {
        self.passes_spec(unit.fractal)
    }

    proof fn keeps_respects_unit_eq(&self, a: SemanticUnit, b: SemanticUnit) {
        lemma_ft_eq_same_views(a.fractal, b.fractal);
    }

    proof fn passes_respects_ft_eq(&self, a: FractalType, b: FractalType) {
        lemma_ft_eq_same_views(a, b);
    }

    fn passes(&self, fractal: &FractalType) -> (r: bool)
        ensures
            r == self.passes_spec(*fractal),
    {
        let tags: &crate::atom::TagSet = match fractal {
            FractalType::Mandelbrot(m) => &m.tags,
            FractalType::IFS(i) => &i.tags,
        };
        let n: usize = self.required_tags.len();
        let mut k: usize = 0;
        while k < n
            invariant
                k <= n,
                n == self.required_tags@.len(),
                tags.spec_tags() == ft_tags(*fractal),
                forall|i: int| 0 <= i < k
                    ==> ft_tags(*fractal).contains((#[trigger] self.required_tags@[i])@),
            decreases n - k,
        {
            if !tags.contains(self.required_tags[k].as_str()) {
                return false;
            }
            k = k + 1;
        }
        true
    }

    fn keeps(&self, unit: &SemanticUnit) -> (r: bool)
        ensures
            r == self.keeps_spec(*unit),
    {
        self.passes(&unit.fractal)
    }

    fn apply(&self, units: &[SemanticUnit]) -> (r: Vec<SemanticUnit>)
        ensures
            r@.len() <= units@.len(),
            forall|i: int| 0 <= i < r@.len() ==> self.keeps_spec(#[trigger] r@[i]),
    {
        let n: usize = units.len();
        let mut out: Vec<SemanticUnit> = Vec::new();
        let mut k: usize = 0;
        while k < n
            invariant
                k <= n,
                n == units@.len(),
                out@.len() <= k,
                forall|i: int| 0 <= i < out@.len() ==> self.keeps_spec(#[trigger] out@[i]),
            decreases n - k,
        {
            if self.passes(&units[k].fractal) {
                out.push(units[k].clone());
                proof {
                    self.keeps_respects_unit_eq(out@[out@.len() - 1], units@[k as int]);
                }
            }
            k = k + 1;
        }
        out
    }
}

/// Filters fractals by the domain field of their metadata.
pub struct DomainFilter {
    pub domain: String,
}

impl ResonanceFilter for DomainFilter {
    /// A fractal passes when its metadata domain matches.
    open spec fn passes_spec(&self, fractal: FractalType) -> bool {
        ft_domain(fractal) == self.domain@
    }

    /// A unit survives when its fractal passes.
    open spec fn keeps_spec(&self, unit: SemanticUnit) -> bool {
        self.passes_spec(unit.fractal)
    }

    proof fn keeps_respects_unit_eq(&self, a: SemanticUnit, b: SemanticUnit) {
        lemma_ft_eq_same_views(a.fractal, b.fractal);
    }

    proof fn passes_respects_ft_eq(&self, a: FractalType, b: FractalType) {
        lemma_ft_eq_same_views(a, b);
    }

    fn passes(&self, fractal: &FractalType) -> (r: bool)
        ensures
            r == self.passes_spec(*fractal),
    {
        let md: &crate::atom::Metadata = match fractal {
            FractalType::Mandelbrot(m) => &m.metadata,
            FractalType::IFS(i) => &i.metadata,
        };
        str_eq(md.domain.as_str(), self.domain.as_str())
    }

    fn keeps(&self, unit: &SemanticUnit) -> (r: bool)
        ensures
            r == self.keeps_spec(*unit),
    {
        self.passes(&unit.fractal)
    }

    fn apply(&self, units: &[SemanticUnit]) -> (r: Vec<SemanticUnit>)
        ensures
            r@.len() <= units@.len(),
            forall|i: int| 0 <= i < r@.len() ==> self.keeps_spec(#[trigger] r@[i]),
    {
        let n: usize = units.len();
        let mut out: Vec<SemanticUnit> = Vec::new();
        let mut k: usize = 0;
        while k < n
            invariant
                k <= n,
                n == units@.len(),
                out@.len() <= k,
                forall|i: int| 0 <= i < out@.len() ==> self.keeps_spec(#[trigger] out@[i]),
            decreases n - k,
        {
            if self.passes(&units[k].fractal) {
                out.push(units[k].clone());
                proof {
                    self.keeps_respects_unit_eq(out@[out@.len() - 1], units@[k as int]);
                }
            }
            k = k + 1;
        }
        out
    }
}

/// A flexible filter that tests units with a caller-supplied predicate; it
/// is a no-op at the fractal level.
pub struct PredicateFilter<F> {
    pub predicate: F,
}

impl<F: Fn(&SemanticUnit) -> bool> PredicateFilter<F> {
    /// Applies the stored predicate to each unit, keeping those it accepts.
    pub fn apply(&self, units: &[SemanticUnit]) -> (r: Vec<SemanticUnit>)
        requires
            forall|u: SemanticUnit| #[trigger] call_requires(self.predicate, (&u,)),
        ensures
            r@.len() <= units@.len(),
    {
        let n: usize = units.len();
        let mut out: Vec<SemanticUnit> = Vec::new();
        let mut k: usize = 0;
        while k < n
            invariant
                k <= n,
                n == units@.len(),
                out@.len() <= k,
                forall|u: SemanticUnit| #[trigger] call_requires(self.predicate, (&u,)),
            decreases n - k,
        {
            if (self.predicate)(&units[k]) {
                out.push(units[k].clone());
            }
            k = k + 1;
        }
        out
    }

    /// At the fractal level the predicate cannot be consulted, so
    /// everything passes.
    pub fn passes(&self, fractal: &FractalType) -> (r: bool)
        ensures
            r == true,
    {
        true
    }
}

/// The logic for combining filters in a `ComposedFilter`.
#[derive(Debug, Clone, Copy, PartialEq, Eq, Structural)]
pub enum FilterLogic {
    And,
    Or,
    Not,
}

/// One of the closed set of basic filters, usable inside compositions.
pub enum FilterKind {
    Law(LawFilter),
    Score(ScoreFilter),
    Tags(TagMatchFilter),
    Domain(DomainFilter),
}

impl ResonanceFilter for FilterKind {
    open spec fn passes_spec(&self, fractal: FractalType) -> bool {
        match self {
            FilterKind::Law(f) => f.passes_spec(fractal),
            FilterKind::Score(f) => f.passes_spec(fractal),
            FilterKind::Tags(f) => f.passes_spec(fractal),
            FilterKind::Domain(f) => f.passes_spec(fractal),
        }
    }

    open spec fn keeps_spec(&self, unit: SemanticUnit) -> bool {
        match self {
            FilterKind::Law(f) => f.keeps_spec(unit),
            FilterKind::Score(f) => f.keeps_spec(unit),
            FilterKind::Tags(f) => f.keeps_spec(unit),
            FilterKind::Domain(f) => f.keeps_spec(unit),
        }
    }

    proof fn keeps_respects_unit_eq(&self, a: SemanticUnit, b: SemanticUnit) {
        match self {
            FilterKind::Law(f) => f.keeps_respects_unit_eq(a, b),
            FilterKind::Score(f) => f.keeps_respects_unit_eq(a, b),
            FilterKind::Tags(f) => f.keeps_respects_unit_eq(a, b),
            FilterKind::Domain(f) => f.keeps_respects_unit_eq(a, b),
        }
    }

    proof fn passes_respects_ft_eq(&self, a: FractalType, b: FractalType) {
        match self {
            FilterKind::Law(f) => f.passes_respects_ft_eq(a, b),
            FilterKind::Score(f) => f.passes_respects_ft_eq(a, b),
            FilterKind::Tags(f) => f.passes_respects_ft_eq(a, b),
            FilterKind::Domain(f) => f.passes_respects_ft_eq(a, b),
        }
    }

    fn passes(&self, fractal: &FractalType) -> (r: bool)
        ensures
            r == self.passes_spec(*fractal),
    {
        match self {
            FilterKind::Law(f) => f.passes(fractal),
            FilterKind::Score(f) => f.passes(fractal),
            FilterKind::Tags(f) => f.passes(fractal),
            FilterKind::Domain(f) => f.passes(fractal),
        }
    }

    fn keeps(&self, unit: &SemanticUnit) -> (r: bool)
        ensures
            r == self.keeps_spec(*unit),
    {
        match self {
            FilterKind::Law(f) => f.keeps(unit),
            FilterKind::Score(f) => f.keeps(unit),
            FilterKind::Tags(f) => f.keeps(unit),
            FilterKind::Domain(f) => f.keeps(unit),
        }
    }

    fn apply(&self, units: &[SemanticUnit]) -> (r: Vec<SemanticUnit>)
        ensures
            r@.len() <= units@.len(),
            forall|i: int| 0 <= i < r@.len() ==> self.keeps_spec(#[trigger] r@[i]),
    {
        match self {
            FilterKind::Law(f) => f.apply(units),
            FilterKind::Score(f) => f.apply(units),
            FilterKind::Tags(f) => f.apply(units),
            FilterKind::Domain(f) => f.apply(units),
        }
    }
}

/// A filter combining several sub-filters under one logic.
pub struct ComposedFilter {
    pub filters: Vec<FilterKind>,
    pub logic: FilterLogic,
}

impl ComposedFilter {
    /// Whether at least one sub-filter keeps this unit.
    pub open spec fn kept_by_some(&self, u: SemanticUnit) -> bool {
        exists|fidx: int| 0 <= fidx < self.filters@.len()
            && (#[trigger] self.filters@[fidx]).keeps_spec(u)
    }

    /// Whether a fractal passes the composition: all sub-filters for And,
    /// any for Or, and the negation of the first for Not.
    pub open spec fn passes_spec(&self, fractal: FractalType) -> bool {
        match self.logic {
            FilterLogic::And => forall|i: int| 0 <= i < self.filters@.len()
                ==> (#[trigger] self.filters@[i]).passes_spec(fractal),
            FilterLogic::Or => exists|i: int| 0 <= i < self.filters@.len()
                && (#[trigger] self.filters@[i]).passes_spec(fractal),
            FilterLogic::Not => !self.filters@[0].passes_spec(fractal),
        }
    }

    /// Decides `passes_spec`. The Not logic consults the first sub-filter,
    /// so it needs one.
    pub fn passes(&self, fractal: &FractalType) -> (r: bool)
        requires
            self.logic == FilterLogic::Not ==> self.filters@.len() > 0,
        ensures
            r == self.passes_spec(*fractal),
    {
        let n: usize = self.filters.len();
        match self.logic {
            FilterLogic::And => {
                let mut k: usize = 0;
                while k < n
                    invariant
                        k <= n,
                        n == self.filters@.len(),
                        self.logic == FilterLogic::And,
                        forall|i: int| 0 <= i < k
                            ==> (#[trigger] self.filters@[i]).passes_spec(*fractal),
                    decreases n - k,
                {
                    if !self.filters[k].passes(fractal) {
                        return false;
                    }
                    k = k + 1;
                }
                true
            },
            FilterLogic::Or => {
                let mut k: usize = 0;
                while k < n
                    invariant
                        k <= n,
                        n == self.filters@.len(),
                        self.logic == FilterLogic::Or,
                        forall|i: int| 0 <= i < k
                            ==> !(#[trigger] self.filters@[i]).passes_spec(*fractal),
                    decreases n - k,
                {
                    if self.filters[k].passes(fractal) {
                        return true;
                    }
                    k = k + 1;
                }
                false
            },
            FilterLogic::Not => !self.filters[0].passes(fractal),
        }
    }

    /// Applies the composition to a batch of units, in input order for And
    /// and Not and in sub-filter-major order for Or. And keeps the units
    /// every sub-filter keeps, which is what pipelining the sub-filters in
    /// registration order produces; Or collects the units kept by any
    /// sub-filter, without repeating a unit; Not keeps exactly the units the
    /// first sub-filter would discard.
    pub fn apply(&self, units: &[SemanticUnit]) -> (r: Vec<SemanticUnit>)
        requires
            self.logic == FilterLogic::Not ==> self.filters@.len() > 0,
        ensures
            self.logic == FilterLogic::And ==> {
                &&& r@.len() <= units@.len()
                &&& forall|i: int, fidx: int|
                    0 <= i < r@.len() && 0 <= fidx < self.filters@.len()
                        ==> (#[trigger] self.filters@[fidx]).keeps_spec(#[trigger] r@[i])
            },
            self.logic == FilterLogic::Or ==> {
                &&& (forall|i: int, i2: int| 0 <= i < i2 < r@.len()
                    ==> !unit_eq(#[trigger] r@[i], #[trigger] r@[i2]))
                &&& (forall|i: int| 0 <= i < r@.len()
                    ==> self.kept_by_some(#[trigger] r@[i]))
            },
            self.logic == FilterLogic::Not ==> {
                &&& r@.len() <= units@.len()
                &&& forall|i: int| 0 <= i < r@.len()
                    ==> !self.filters@[0].keeps_spec(#[trigger] r@[i])
            },
    {
        let n: usize = self.filters.len();
        match self.logic {
            FilterLogic::And => {
                // Keep the units that every sub-filter keeps: the same
                // survivors a pipeline of the sub-filters leaves.
                let un: usize = units.len();
                let mut out: Vec<SemanticUnit> = Vec::new();
                let mut k: usize = 0;
                while k < un
                    invariant
                        k <= un,
                        un == units@.len(),
                        n == self.filters@.len(),
                        out@.len() <= k,
                        forall|i: int, fidx: int|
                            0 <= i < out@.len() && 0 <= fidx < self.filters@.len()
                                ==> (#[trigger] self.filters@[fidx])
                                    .keeps_spec(#[trigger] out@[i]),
                    decreases un - k,
                {
                    let mut all_keep: bool = true;
                    let mut a: usize = 0;
                    while a < n
                        invariant
                            a <= n,
                            k < un,
                            un == units@.len(),
                            n == self.filters@.len(),
                            all_keep == (forall|fidx: int| 0 <= fidx < a
                                ==> (#[trigger] self.filters@[fidx])
                                    .keeps_spec(units@[k as int])),
                        decreases n - a,
                    {
                        if !self.filters[a].keeps(&units[k]) {
                            all_keep = false;
                        }
                        a = a + 1;
                    }
                    if all_keep {
                        out.push(units[k].clone());
                        proof {
                            assert forall|fidx: int| 0 <= fidx < self.filters@.len()
                                implies (#[trigger] self.filters@[fidx])
                                    .keeps_spec(out@[out@.len() - 1]) by {
                                self.filters@[fidx].keeps_respects_unit_eq(
                                    out@[out@.len() - 1], units@[k as int]);
                            }
                        }
                    }
                    k = k + 1;
                }
                out
            },
            FilterLogic::Or => {
                // A union of each sub-filter's survivors, without repeats.
                let un: usize = units.len();
                let mut result: Vec<SemanticUnit> = Vec::new();
                let mut k: usize = 0;
                while k < n
                    invariant
                        k <= n,
                        un == units@.len(),
                        n == self.filters@.len(),
                        forall|i: int| 0 <= i < result@.len()
                            ==> self.kept_by_some(#[trigger] result@[i]),
                        forall|i: int, i2: int| 0 <= i < i2 < result@.len()
                            ==> !unit_eq(#[trigger] result@[i], #[trigger] result@[i2]),
                    decreases n - k,
                {
                    let mut b: usize = 0;
                    while b < un
                        invariant
                            b <= un,
                            k < n,
                            un == units@.len(),
                            n == self.filters@.len(),
                            forall|i: int| 0 <= i < result@.len()
                                ==> self.kept_by_some(#[trigger] result@[i]),
                            forall|i: int, i2: int| 0 <= i < i2 < result@.len()
                                ==> !unit_eq(#[trigger] result@[i], #[trigger] result@[i2]),
                        decreases un - b,
                    {
                        if self.filters[k].keeps(&units[b])
                            && !contains_unit(&result, &units[b]) {
                            let ghost prev = result@;
                            result.push(units[b].clone());
                            proof {
                                let last = result@.len() - 1;
                                self.filters@[k as int].keeps_respects_unit_eq(
                                    result@[last], units@[b as int]);
                                assert(self.kept_by_some(result@[last]));
                                lemma_distinct_after_push(
                                    prev,
                                    result@,
                                    result@[last],
                                    units@[b as int],
                                );
                            }
                        }
                        b = b + 1;
                    }
                    k = k + 1;
                }
                result
            },
            FilterLogic::Not => {
                // Exactly the units the first sub-filter would discard.
                let un: usize = units.len();
                let mut result: Vec<SemanticUnit> = Vec::new();
                let mut k: usize = 0;
                while k < un
                    invariant
                        k <= un,
                        un == units@.len(),
                        n == self.filters@.len(),
                        n > 0,
                        result@.len() <= k,
                        forall|i: int| 0 <= i < result@.len()
                            ==> !self.filters@[0].keeps_spec(#[trigger] result@[i]),
                    decreases un - k,
                {
                    if !self.filters[0].keeps(&units[k]) {
                        result.push(units[k].clone());
                        proof {
                            self.filters@[0].keeps_respects_unit_eq(
                                result@[result@.len() - 1], units@[k as int]);
                        }
                    }
                    k = k + 1;
                }
                result
            },
        }
    }
}

/// Pushing a clone of a unit that matches nothing in a pairwise-distinct
/// batch keeps the batch pairwise distinct.
proof fn lemma_distinct_after_push(
    prev: Seq<SemanticUnit>,
    cur: Seq<SemanticUnit>,
    pushed: SemanticUnit,
    original: SemanticUnit,
)
    requires
        cur == prev.push(pushed),
        unit_eq(pushed, original),
        forall|i: int, i2: int| 0 <= i < i2 < prev.len()
            ==> !unit_eq(#[trigger] prev[i], #[trigger] prev[i2]),
        forall|i: int| 0 <= i < prev.len() ==> !unit_eq(#[trigger] prev[i], original),
    ensures
        forall|i: int, i2: int| 0 <= i < i2 < cur.len()
            ==> !unit_eq(#[trigger] cur[i], #[trigger] cur[i2]),
{
    assert forall|i: int, i2: int| 0 <= i < i2 < cur.len()
        implies !unit_eq(#[trigger] cur[i], #[trigger] cur[i2]) by {
        if i2 < prev.len() {
            assert(cur[i] == prev[i]);
            assert(cur[i2] == prev[i2]);
        } else {
            assert(cur[i] == prev[i]);
            assert(cur[i2] == pushed);
        }
    }
}

/// An in-order copy of a batch of units.
fn clone_units(units: &[SemanticUnit]) -> (r: Vec<SemanticUnit>)
    ensures
        r@.len() == units@.len(),
{
    let n: usize = units.len();
    let mut out: Vec<SemanticUnit> = Vec::new();
    let mut k: usize = 0;
    while k < n
        invariant
            k <= n,
            n == units@.len(),
            out@.len() == k,
        decreases n - k,
    {
        out.push(units[k].clone());
        k = k + 1;
    }
    out
}

/// Whether a batch holds a unit semantically equal to the given one.
fn contains_unit(batch: &Vec<SemanticUnit>, unit: &SemanticUnit) -> (r: bool)
    ensures
        r == exists|i: int| 0 <= i < batch@.len() && unit_eq(#[trigger] batch@[i], *unit),
{
    let n: usize = batch.len();
    let mut k: usize = 0;
    while k < n
        invariant
            k <= n,
            n == batch@.len(),
            forall|i: int| 0 <= i < k ==> !unit_eq(#[trigger] batch@[i], *unit),
        decreases n - k,
    {
        if unit_equal(&batch[k], unit) {
            return true;
        }
        k = k + 1;
    }
    false
}

/// Decides semantic equality of two units.
fn unit_equal(a: &SemanticUnit, b: &SemanticUnit) -> (r: bool)
    ensures
        r == unit_eq(*a, *b),
{
    str_eq(a.label.as_str(), b.label.as_str()) && a.depth == b.depth && a.phase == b.phase
        && a.fractal.is_equal(&b.fractal)
}

/// An enum-based way to compose filters.
pub enum CompositeFilter {
    /// Passes when all sub-filters pass.
    All(Vec<FilterKind>),
    /// Passes when any sub-filter passes.
    Any(Vec<FilterKind>),
    /// Passes when the sub-filter does not.
    Not(Box<FilterKind>),
}

impl CompositeFilter {
    /// Whether a fractal passes the composition.
    pub open spec fn passes_spec(&self, fractal: FractalType) -> bool {
        match self {
            CompositeFilter::All(filters) => forall|i: int| 0 <= i < filters@.len()
                ==> (#[trigger] filters@[i]).passes_spec(fractal),
            CompositeFilter::Any(filters) => exists|i: int| 0 <= i < filters@.len()
                && (#[trigger] filters@[i]).passes_spec(fractal),
            CompositeFilter::Not(filter) => !filter.passes_spec(fractal),
        }
    }

    /// The composition's verdict reads only what a fractal means.
    pub proof fn passes_respects_ft_eq(&self, a: FractalType, b: FractalType)
        requires
            ft_eq(&a, &b),
        ensures
            self.passes_spec(a) == self.passes_spec(b),
    {
        match self {
            CompositeFilter::All(filters) => {
                assert forall|i: int| 0 <= i < filters@.len()
                    implies ((#[trigger] filters@[i]).passes_spec(a)
                        == filters@[i].passes_spec(b)) by {
                    filters@[i].passes_respects_ft_eq(a, b);
                }
            },
            CompositeFilter::Any(filters) => {
                assert forall|i: int| 0 <= i < filters@.len()
                    implies ((#[trigger] filters@[i]).passes_spec(a)
                        == filters@[i].passes_spec(b)) by {
                    filters@[i].passes_respects_ft_eq(a, b);
                }
            },
            CompositeFilter::Not(filter) => {
                filter.passes_respects_ft_eq(a, b);
            },
        }
    }

    /// Decides `passes_spec`.
    pub fn passes(&self, fractal: &FractalType) -> (r: bool)
        ensures
            r == self.passes_spec(*fractal),
    {
        match self {
            CompositeFilter::All(filters) => {
                let n: usize = filters.len();
                let mut all_pass: bool = true;
                let mut k: usize = 0;
                while k < n
                    invariant
                        k <= n,
                        n == filters@.len(),
                        all_pass == (forall|i: int| 0 <= i < k
                            ==> (#[trigger] filters@[i]).passes_spec(*fractal)),
                    decreases n - k,
                {
                    if !filters[k].passes(fractal) {
                        all_pass = false;
                    }
                    k = k + 1;
                }
                all_pass
            },
            CompositeFilter::Any(filters) => {
                let n: usize = filters.len();
                let mut any_pass: bool = false;
                let mut k: usize = 0;
                while k < n
                    invariant
                        k <= n,
                        n == filters@.len(),
                        any_pass == (exists|i: int| 0 <= i < k
                            && (#[trigger] filters@[i]).passes_spec(*fractal)),
                    decreases n - k,
                {
                    if filters[k].passes(fractal) {
                        any_pass = true;
                    }
                    k = k + 1;
                }
                any_pass
            },
            CompositeFilter::Not(filter) => !filter.passes(fractal),
        }
    }

    /// Keeps the units whose fractal passes the composition.
    pub fn apply(&self, units: &[SemanticUnit]) -> (r: Vec<SemanticUnit>)
        ensures
            r@.len() <= units@.len(),
            forall|i: int| 0 <= i < r@.len()
                ==> self.passes_spec((#[trigger] r@[i]).fractal),
    {
        let n: usize = units.len();
        let mut out: Vec<SemanticUnit> = Vec::new();
        let mut k: usize = 0;
        while k < n
            invariant
                k <= n,
                n == units@.len(),
                out@.len() <= k,
                forall|i: int| 0 <= i < out@.len()
                    ==> self.passes_spec((#[trigger] out@[i]).fractal),
            decreases n - k,
        {
            if self.passes(&units[k].fractal) {
                out.push(units[k].clone());
                proof {
                    self.passes_respects_ft_eq(
                        out@[out@.len() - 1].fractal, units@[k as int].fractal);
                }
            }
            k = k + 1;
        }
        out
    }
}

/// A record of which members passed or failed a named filter.
#[derive(Debug)]
pub struct FilterTrace {
    pub filter_name: String,
    /// The indexes of the members that passed, in order.
    pub passed: Vec<usize>,
    /// The indexes of the members that failed, in order.
    pub failed: Vec<usize>,
}

/// A collection augmented with pre-computed resonance data, so that
/// filtering does not recompute scores and laws.
#[derive(Debug)]
pub struct ResonantFractalCollection {
    pub collection: FractalCollection,
    pub resonance_scores: Vec<i64>,
    pub resonance_laws: Vec<ResonanceLaw>,
    pub average_resonance: i64,
}

/// The saturating total of a sequence of scores.
pub open spec fn scores_total(s: Seq<i64>) -> int
    decreases s.len(),
{
    if s.len() == 0 {
        0
    } else {
        crate::numeric::sat64(scores_total(s.drop_last()) + s.last())
    }
}

impl ResonantFractalCollection {
    /// What the cached data says: one score and one law per member, each
    /// computed from that member's fractal, and the average is the
    /// saturating total of the scores divided by their number.
    pub open spec fn cache_ok(&self) -> bool {
        &&& self.resonance_scores@.len() == self.collection.members@.len()
        &&& self.resonance_laws@.len() == self.collection.members@.len()
        &&& forall|i: int| 0 <= i < self.collection.members@.len()
            ==> (#[trigger] self.resonance_scores@[i]) as int
                == self.collection.members@[i].fractal.score_spec()
        &&& forall|i: int| 0 <= i < self.collection.members@.len()
            ==> (#[trigger] self.resonance_laws@[i])
                == self.collection.members@[i].fractal.law_spec()
        &&& self.average_resonance as int == (if self.collection.members@.len() == 0 {
            0int
        } else {
            scores_total(self.resonance_scores@) / self.collection.members@.len() as int
        })
    }

    /// Builds the cache by scoring and classifying every member.
    pub fn new(collection: FractalCollection) -> (r: Self)
        ensures
            r.collection == collection,
            r.cache_ok(),
    {
        let n: usize = collection.members.len();
        let mut resonance_scores: Vec<i64> = Vec::new();
        let mut resonance_laws: Vec<ResonanceLaw> = Vec::new();
        let mut total: i64 = 0;
        let mut k: usize = 0;
        while k < n
            invariant
                k <= n,
                n == collection.members@.len(),
                resonance_scores@.len() == k,
                resonance_laws@.len() == k,
                forall|i: int| 0 <= i < k ==> (#[trigger] resonance_scores@[i]) as int
                    == collection.members@[i].fractal.score_spec(),
                forall|i: int| 0 <= i < k ==> (#[trigger] resonance_laws@[i])
                    == collection.members@[i].fractal.law_spec(),
                total as int == scores_total(resonance_scores@),
            decreases n - k,
        {
            let ghost before = resonance_scores@;
            let s: i64 = collection.members[k].fractal.resonance_score();
            let l: ResonanceLaw = collection.members[k].fractal.resonance_law();
            resonance_scores.push(s);
            resonance_laws.push(l);
            total = crate::numeric::sat_to_i64(total as i128 + s as i128);
            proof {
                assert(resonance_scores@.drop_last() =~= before);
            }
            k = k + 1;
        }
        let average_resonance: i64 = if n == 0 {
            0
        } else {
            proof {
                crate::field::lemma_quotient_in_i64(total as int, n as int);
            }
            crate::numeric::sat_to_i64(crate::numeric::floor_div(total as i128, n as i128))
        };
        ResonantFractalCollection {
            collection,
            resonance_scores,
            resonance_laws,
            average_resonance,
        }
    }

    /// Recomputes all cached resonance data in place, for use after the
    /// collection has been changed through its public fields.
    pub fn reevaluate(&mut self)
        ensures
            final(self).collection == old(self).collection,
            final(self).cache_ok(),
    {
        let n: usize = self.collection.members.len();
        let mut resonance_scores: Vec<i64> = Vec::new();
        let mut resonance_laws: Vec<ResonanceLaw> = Vec::new();
        let mut total: i64 = 0;
        let mut k: usize = 0;
        while k < n
            invariant
                k <= n,
                *self == *old(self),
                n == self.collection.members@.len(),
                resonance_scores@.len() == k,
                resonance_laws@.len() == k,
                forall|i: int| 0 <= i < k ==> (#[trigger] resonance_scores@[i]) as int
                    == self.collection.members@[i].fractal.score_spec(),
                forall|i: int| 0 <= i < k ==> (#[trigger] resonance_laws@[i])
                    == self.collection.members@[i].fractal.law_spec(),
                total as int == scores_total(resonance_scores@),
            decreases n - k,
        {
            let ghost before = resonance_scores@;
            let s: i64 = self.collection.members[k].fractal.resonance_score();
            let l: ResonanceLaw = self.collection.members[k].fractal.resonance_law();
            resonance_scores.push(s);
            resonance_laws.push(l);
            total = crate::numeric::sat_to_i64(total as i128 + s as i128);
            proof {
                assert(resonance_scores@.drop_last() =~= before);
            }
            k = k + 1;
        }
        self.resonance_scores = resonance_scores;
        self.resonance_laws = resonance_laws;
        self.average_resonance = if n == 0 {
            0
        } else {
            proof {
                crate::field::lemma_quotient_in_i64(total as int, n as int);
            }
            crate::numeric::sat_to_i64(crate::numeric::floor_div(total as i128, n as i128))
        };
    }

    /// A new collection holding only the members whose fractal passes the
    /// filter, in order.
    pub fn filter<FLT: ResonanceFilter>(&self, filter: &FLT) -> (r: FractalCollection)
        ensures
            r.members@.len() <= self.collection.members@.len(),
            forall|i: int| 0 <= i < r.members@.len()
                ==> filter.passes_spec((#[trigger] r.members@[i]).fractal),
    {
        let n: usize = self.collection.members.len();
        let mut members: Vec<CollectionMember> = Vec::new();
        let mut k: usize = 0;
        while k < n
            invariant
                k <= n,
                n == self.collection.members@.len(),
                members@.len() <= k,
                forall|i: int| 0 <= i < members@.len()
                    ==> filter.passes_spec((#[trigger] members@[i]).fractal),
            decreases n - k,
        {
            if filter.passes(&self.collection.members[k].fractal) {
                members.push(self.collection.members[k].clone());
                proof {
                    filter.passes_respects_ft_eq(
                        members@[members@.len() - 1].fractal,
                        self.collection.members@[k as int].fractal,
                    );
                }
            }
            k = k + 1;
        }
        FractalCollection { members }
    }

    /// Runs a filter over the collection and records which member indexes
    /// passed and which failed.
    pub fn trace_filter<FLT: ResonanceFilter>(&self, filter: &FLT, name: &str)
        -> (r: FilterTrace)
        ensures
            r.filter_name@ == name@,
            r.passed@.len() + r.failed@.len() == self.collection.members@.len(),
            forall|i: int| 0 <= i < r.passed@.len() ==> {
                &&& (#[trigger] r.passed@[i]) < self.collection.members@.len()
                &&& filter.passes_spec(self.collection.members@[r.passed@[i] as int].fractal)
            },
            forall|i: int| 0 <= i < r.failed@.len() ==> {
                &&& (#[trigger] r.failed@[i]) < self.collection.members@.len()
                &&& !filter.passes_spec(self.collection.members@[r.failed@[i] as int].fractal)
            },
    {
        let n: usize = self.collection.members.len();
        let mut passed: Vec<usize> = Vec::new();
        let mut failed: Vec<usize> = Vec::new();
        let mut k: usize = 0;
        while k < n
            invariant
                k <= n,
                n == self.collection.members@.len(),
                passed@.len() + failed@.len() == k,
                forall|i: int| 0 <= i < passed@.len() ==> {
                    &&& (#[trigger] passed@[i]) < n
                    &&& filter.passes_spec(self.collection.members@[passed@[i] as int].fractal)
                },
                forall|i: int| 0 <= i < failed@.len() ==> {
                    &&& (#[trigger] failed@[i]) < n
                    &&& !filter.passes_spec(self.collection.members@[failed@[i] as int].fractal)
                },
            decreases n - k,
        {
            if filter.passes(&self.collection.members[k].fractal) {
                passed.push(k);
            } else {
                failed.push(k);
            }
            k = k + 1;
        }
        FilterTrace { filter_name: name.to_owned(), passed, failed }
    }
}

} // verus!
