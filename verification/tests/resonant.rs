//! Resonance classification, transformations and the filtering system.

use fractal_algebra::atom::{Metadata, TagSet};
use fractal_algebra::complex::Complex;
use fractal_algebra::filters::{
    ComposedFilter, CompositeFilter, DomainFilter, FilterKind, FilterLogic, LawFilter,
    PredicateFilter, ResonantFractalCollection, ScoreFilter, TagMatchFilter,
};
use fractal_algebra::fractaledge::FractalEdge;
use fractal_algebra::resonance::{
    PhaseShift, Resonance, ResonanceFilter, ResonanceLaw, ResonanceRule, ResonantTransform,
    SemanticLattice, SemanticUnit, TransformResonanceLaw,
};
use fractal_algebra::signature::FractalSignature;
use fractal_algebra::traits::{
    add_fractals, sub_fractals, Fractal, FractalCollection, FractalType, Mandelbrot, IFS,
    Operation,
};

fn sample_ifs(count: u32, domain: &str, tag: &str) -> IFS {
    IFS {
        transform_count: count,
        metadata: Metadata { domain: domain.to_string(), description: None },
        tags: TagSet::new(vec![tag.to_string()]).unwrap(),
    }
}

fn sample_unit(label: &str, depth: usize, phase: i64, f: FractalType) -> SemanticUnit {
    SemanticUnit { label: label.to_string(), depth, phase, fractal: f }
}

#[test]
fn fractal_edge_resonance_is_exact() {
    // Amplitude 3.00, phase a quarter turn: deviation 100, so the score is
    // 300 * 100 / 100 = 300.
    let e = FractalEdge { amplitude: Complex::new(300, 0), location: 3, phase: 100 };
    assert_eq!(e.resonance_score(), 300);
    assert_eq!(e.resonance_law(), ResonanceLaw::Echo);
    // A silent edge is Null; an aligned edge is Harmony; a half turn is
    // Dissonance; a loud edge pulses.
    let silent = FractalEdge { amplitude: Complex::new(0, 0), location: 0, phase: 100 };
    assert_eq!(silent.resonance_law(), ResonanceLaw::Null);
    let aligned = FractalEdge { amplitude: Complex::new(300, 0), location: 0, phase: 3 };
    assert_eq!(aligned.resonance_law(), ResonanceLaw::Harmony);
    let opposed = FractalEdge { amplitude: Complex::new(300, 0), location: 0, phase: 195 };
    assert_eq!(opposed.resonance_law(), ResonanceLaw::Dissonance);
    let loud = FractalEdge { amplitude: Complex::new(5000, 0), location: 0, phase: 100 };
    assert_eq!(loud.resonance_law(), ResonanceLaw::EntropyPulse);
    // Perfect similarity of an edge with itself: phase similarity 100 and
    // amplitude ratio 100 mix to 100.
    assert_eq!(e.resonance_similarity(&e), 100);
    assert!(e.is_resonant_with(&e));
    assert_eq!(e.resonance_signature(), Some(vec![300, 0, 100, 3]));
}

#[test]
fn convolve_and_combine_are_exact() {
    let a = FractalEdge { amplitude: Complex::new(200, 0), location: 200, phase: 10 };
    let b = FractalEdge { amplitude: Complex::new(300, 0), location: 100, phase: 20 };
    let c = a.convolve(&b);
    // Amplitudes multiply in fixed point: 2.00 * 3.00 = 6.00.
    assert_eq!(c.amplitude, Complex::new(600, 0));
    // Locations add modulo 256.
    assert_eq!(c.location, (200 + 100) % 256);
    assert_eq!(c.phase, 30);
    let d = FractalEdge { amplitude: Complex::new(100, 50), location: 200, phase: 10 };
    let e = a.combine(&d);
    assert_eq!(e.amplitude, Complex::new(300, 50));
    assert_eq!(e.location, 200);
    assert_eq!(e.phase, 10);
}

#[test]
fn phase_shift_classifies_its_own_effect() {
    let edge = FractalEdge { amplitude: Complex::new(300, 0), location: 0, phase: 0 };
    let shift = PhaseShift { delta: 100 };
    let moved = shift.apply(&edge);
    assert_eq!(moved.phase, 100);
    // The deviation moves from 0 to 100, so the score rises by 300.
    assert_eq!(shift.resonance_delta(&edge), 300);
    assert_eq!(shift.transform_law(&edge), TransformResonanceLaw::Amplifying);
    let still = PhaseShift { delta: 0 };
    assert_eq!(still.transform_law(&edge), TransformResonanceLaw::Invariant);
    let back = PhaseShift { delta: -100 };
    let high = FractalEdge { amplitude: Complex::new(300, 0), location: 0, phase: 100 };
    assert_eq!(back.transform_law(&high), TransformResonanceLaw::Dampening);
}

#[test]
fn law_descriptions_and_equality() {
    assert_eq!(ResonanceLaw::Echo.description(), "Echo (recursive self-similarity)");
    assert_eq!(ResonanceLaw::Other("beat").description(), "Other (beat)");
    assert!(ResonanceLaw::Null.same_law(&ResonanceLaw::Null));
    assert!(!ResonanceLaw::Null.same_law(&ResonanceLaw::Echo));
    assert!(ResonanceLaw::Other("x").same_law(&ResonanceLaw::Other("x")));
    assert!(!ResonanceLaw::Other("x").same_law(&ResonanceLaw::Other("y")));
}

#[test]
fn basic_filters_select_by_law_score_tags_and_domain() {
    let ifs = FractalType::IFS(sample_ifs(3, "geometry", "angular"));
    let mandel = FractalType::Mandelbrot(Mandelbrot {
        center_re: 0,
        center_im: 0,
        zoom: 500,
        metadata: Metadata { domain: "art".to_string(), description: None },
        tags: TagSet::new(vec!["smooth".to_string()]).unwrap(),
    });

    let law = LawFilter { allowed: vec![ResonanceLaw::FractalGrowth] };
    assert!(law.passes(&ifs));
    assert!(!law.passes(&mandel));

    // The iterated-function system scores 3.00; the Mandelbrot view scores
    // zoom * 100 / (100 + |center|) = 500.
    let score = ScoreFilter { min_score: 400 };
    assert!(!score.passes(&ifs));
    assert!(score.passes(&mandel));

    let tags = TagMatchFilter { required_tags: vec!["angular".to_string()] };
    assert!(tags.passes(&ifs));
    assert!(!tags.passes(&mandel));

    let domain = DomainFilter { domain: "art".to_string() };
    assert!(!domain.passes(&ifs));
    assert!(domain.passes(&mandel));
}

#[test]
fn filters_apply_to_semantic_units() {
    let ifs = FractalType::IFS(sample_ifs(3, "geometry", "angular"));
    let units = vec![
        sample_unit("Fractal Growth (self-similar expansion)", 1, 50, ifs.clone()),
        sample_unit("other", 2, 500, ifs.clone()),
        sample_unit("Fractal Growth (self-similar expansion)", 3, 700, ifs.clone()),
    ];
    let law = LawFilter { allowed: vec![ResonanceLaw::FractalGrowth] };
    let kept = law.apply(&units);
    assert_eq!(kept.len(), 2);
    assert_eq!(kept[0].depth, 1);
    assert_eq!(kept[1].depth, 3);

    let score = ScoreFilter { min_score: 400 };
    let kept = score.apply(&units);
    assert_eq!(kept.len(), 2);
    assert_eq!(kept[0].phase, 500);
    assert_eq!(kept[1].phase, 700);

    let pred = PredicateFilter { predicate: |u: &SemanticUnit| u.depth == 2 };
    let kept = pred.apply(&units);
    assert_eq!(kept.len(), 1);
    assert_eq!(kept[0].depth, 2);
}

#[test]
fn composed_and_composite_filters_combine_verdicts() {
    let ifs = FractalType::IFS(sample_ifs(3, "geometry", "angular"));
    let both = ComposedFilter {
        filters: vec![
            FilterKind::Law(LawFilter { allowed: vec![ResonanceLaw::FractalGrowth] }),
            FilterKind::Domain(DomainFilter { domain: "geometry".to_string() }),
        ],
        logic: FilterLogic::And,
    };
    assert!(both.passes(&ifs));
    let either = ComposedFilter {
        filters: vec![
            FilterKind::Law(LawFilter { allowed: vec![ResonanceLaw::Echo] }),
            FilterKind::Domain(DomainFilter { domain: "geometry".to_string() }),
        ],
        logic: FilterLogic::Or,
    };
    assert!(either.passes(&ifs));
    let neither = ComposedFilter {
        filters: vec![FilterKind::Law(LawFilter { allowed: vec![ResonanceLaw::Echo] })],
        logic: FilterLogic::Not,
    };
    assert!(neither.passes(&ifs));

    let composite = CompositeFilter::All(vec![
        FilterKind::Tags(TagMatchFilter { required_tags: vec!["angular".to_string()] }),
        FilterKind::Score(ScoreFilter { min_score: 100 }),
    ]);
    assert!(composite.passes(&ifs));
    let units = vec![sample_unit("u", 1, 50, ifs.clone())];
    let kept = composite.apply(&units);
    assert_eq!(kept.len(), 1);

    // The Or union never repeats a unit, even when two filters keep it.
    let dup_union = ComposedFilter {
        filters: vec![
            FilterKind::Score(ScoreFilter { min_score: 0 }),
            FilterKind::Score(ScoreFilter { min_score: 10 }),
        ],
        logic: FilterLogic::Or,
    };
    let more_units = vec![
        sample_unit("u", 1, 50, ifs.clone()),
        sample_unit("v", 2, 5, ifs.clone()),
    ];
    let union = dup_union.apply(&more_units);
    assert_eq!(union.len(), 2);
}

#[test]
fn collections_cache_scores_and_trace_filters() {
    let a = FractalType::IFS(sample_ifs(2, "geometry", "angular"));
    let b = FractalType::IFS(sample_ifs(6, "geometry", "angular"));
    let collection = add_fractals(&a, &b);
    assert_eq!(collection.members.len(), 2);
    assert_eq!(collection.members[0].operation, Operation::Union);
    let sub = sub_fractals(&a, &b);
    assert_eq!(sub.members[1].operation, Operation::Difference);

    let resonant = ResonantFractalCollection::new(collection);
    assert_eq!(resonant.resonance_scores, vec![200, 600]);
    assert_eq!(
        resonant.resonance_laws,
        vec![ResonanceLaw::FractalGrowth, ResonanceLaw::FractalGrowth],
    );
    assert_eq!(resonant.average_resonance, 400);

    let filter = ScoreFilter { min_score: 300 };
    let narrowed = resonant.filter(&filter);
    assert_eq!(narrowed.members.len(), 1);

    let trace = resonant.trace_filter(&filter, "rich");
    assert_eq!(trace.filter_name, "rich");
    assert_eq!(trace.passed, vec![1]);
    assert_eq!(trace.failed, vec![0]);

    let empty = ResonantFractalCollection::new(FractalCollection::default());
    assert_eq!(empty.average_resonance, 0);
}

#[test]
fn from_units_aggregates_depths_and_phases() {
    let ifs = FractalType::IFS(sample_ifs(1, "geometry", "angular"));
    let units = vec![
        sample_unit("a", 2, 100, ifs.clone()),
        sample_unit("b", 5, -40, ifs.clone()),
        sample_unit("c", 3, 30, ifs.clone()),
    ];
    let sig = FractalSignature::from_units(&units);
    assert_eq!(sig.total_amplitude, 10);
    assert_eq!(sig.average_phase, 30);
    assert_eq!(sig.entropy, 3);
    assert_eq!(sig.edge_count, 3);
    assert_eq!(sig.depth_range, (2, 5));

    let none: Vec<SemanticUnit> = vec![];
    let empty = FractalSignature::from_units(&none);
    assert_eq!(empty.edge_count, 0);
    assert_eq!(empty.depth_range, (0, 0));
}

#[test]
fn fractal_composition_operations_are_exact() {
    let a = sample_ifs(3, "geometry", "angular");
    let b = sample_ifs(4, "geometry", "angular");
    let c = a.compose_with(&b);
    assert_eq!(c.transform_count, 12);
    assert_eq!(c.metadata.domain, "geometry");
    assert_eq!(a.id(), "IFS");
    assert!(a.is_equal(&a.clone()));
    assert!(!a.is_equal(&b));

    let m1 = Mandelbrot {
        center_re: 100,
        center_im: -50,
        zoom: 200,
        metadata: Metadata { domain: "art".to_string(), description: None },
        tags: TagSet::new(vec!["smooth".to_string()]).unwrap(),
    };
    let m2 = Mandelbrot {
        center_re: 20,
        center_im: 30,
        zoom: 300,
        metadata: Metadata { domain: "art".to_string(), description: None },
        tags: TagSet::new(vec!["smooth".to_string()]).unwrap(),
    };
    let moved = m1.transform_by(&m2);
    assert_eq!(moved.center_re, 120);
    assert_eq!(moved.center_im, -20);
    // Zooms multiply in fixed point: 2.00 * 3.00 = 6.00.
    assert_eq!(moved.zoom, 600);
    assert_eq!(m1.id(), "Mandelbrot");
}

#[test]
fn lattice_projects_transforms_and_filters() {
    let ifs = FractalType::IFS(sample_ifs(2, "geometry", "angular"));
    let mut lattice = SemanticLattice {
        units: vec![
            sample_unit("a", 0, 10, ifs.clone()),
            sample_unit("b", 1, 20, ifs.clone()),
            sample_unit("c", 0, 500, ifs.clone()),
        ],
        depth: 0,
    };
    assert_eq!(lattice.resonance_depth(), 0);
    let surface = lattice.project(0);
    assert_eq!(surface.len(), 2);
    assert_eq!(surface[0].label, "a");
    assert_eq!(surface[1].label, "c");

    // Each depth-0 unit expands into one unit a level deeper.
    let rule = ResonanceRule {
        transformation: |u: &SemanticUnit| {
            vec![SemanticUnit {
                label: u.label.clone(),
                depth: u.depth + 1,
                phase: u.phase,
                fractal: u.fractal.clone(),
            }]
        },
    };
    lattice.transform(&rule);
    assert_eq!(lattice.resonance_depth(), 1);
    assert_eq!(lattice.units.len(), 5);
    assert_eq!(lattice.project(1).len(), 3);

    let quick = lattice.filter(&ScoreFilter { min_score: 100 });
    assert_eq!(quick.len(), 2);
    for unit in quick.iter() {
        assert!(unit.phase >= 100);
    }

    let sig = lattice.fractal_signature();
    assert_eq!(sig.edge_count, 5);
}

#[test]
fn composed_apply_has_the_stated_content() {
    let ifs = FractalType::IFS(sample_ifs(3, "geometry", "angular"));
    let units = vec![
        sample_unit("u", 1, 50, ifs.clone()),
        sample_unit("v", 2, 250, ifs.clone()),
        sample_unit("w", 3, 600, ifs.clone()),
    ];
    // And: survivors reach both thresholds.
    let both = ComposedFilter {
        filters: vec![
            FilterKind::Score(ScoreFilter { min_score: 100 }),
            FilterKind::Score(ScoreFilter { min_score: 300 }),
        ],
        logic: FilterLogic::And,
    };
    let kept = both.apply(&units);
    assert_eq!(kept.len(), 1);
    assert_eq!(kept[0].phase, 600);
    // Not: exactly the units the first filter discards.
    let neither = ComposedFilter {
        filters: vec![FilterKind::Score(ScoreFilter { min_score: 100 })],
        logic: FilterLogic::Not,
    };
    let dropped = neither.apply(&units);
    assert_eq!(dropped.len(), 1);
    assert_eq!(dropped[0].phase, 50);
}
