//! The generative core: weighted scoring, selection, mutation and the
//! evolutionary loop.

use fractal_algebra::complex::Complex;
use fractal_algebra::criticloop::GeneratorCriticLoop;
use fractal_algebra::critics::CriticSuite;
use fractal_algebra::evolutionary::EvolutionaryGenerator;
use fractal_algebra::field::FractalField;
use fractal_algebra::graphedge::GraphEdge;
use fractal_algebra::mutation::MutationSuite;
use fractal_algebra::stochastic::StochasticAmplitudePhase;
use fractal_algebra::rfg::RandomFieldGenerator;
use fractal_algebra::traits::{Critic, CriticKind, EntropyCritic, Generator, SymmetryCritic};
use fractal_algebra::vec3::Vec3;

/// A field with a single edge whose payload is purely imaginary, so its
/// entropy is exactly the imaginary amplitude in centi-units.
fn field_with_entropy(centi: i32) -> FractalField {
    FractalField {
        edges: vec![GraphEdge {
            origin: Vec3 { x: 0, y: 0, z: 0 },
            direction: Vec3 { x: 100, y: 0, z: 0 },
            length: 100,
            depth: 0,
            data: Complex { re: 0, im: centi },
        }],
    }
}

#[test]
fn suite_score_is_weighted_sum_in_registration_order() {
    // Two weighted critics: the composite score is exactly the sum of each
    // critic's score times its weight.
    let mut suite: CriticSuite<CriticKind> = CriticSuite::new();
    suite.add_critic(CriticKind::Entropy(EntropyCritic), 200);
    suite.add_critic(CriticKind::Symmetry(SymmetryCritic), 50);
    let f = field_with_entropy(300);
    // Entropy critic: 300; symmetry critic: phase 100 is not symmetric,
    // so the bonus is 0 and the penalty is 300 / 10 = 30.
    let entropy_score = CriticKind::Entropy(EntropyCritic).score(&f) as i128;
    let symmetry_score = CriticKind::Symmetry(SymmetryCritic).score(&f) as i128;
    assert_eq!(entropy_score, 300);
    assert_eq!(symmetry_score, -30);
    assert_eq!(suite.score(&f), entropy_score * 200 + symmetry_score * 50);
}

#[test]
fn select_best_takes_last_of_tied_maximum() {
    // Scores 3, 7, 7, 2 (whole units): the winner is the second score-7
    // candidate, at the third position.
    let mut suite: CriticSuite<EntropyCritic> = CriticSuite::new();
    suite.add_critic(EntropyCritic, 100);
    let candidates = vec![
        field_with_entropy(300),
        field_with_entropy(700),
        field_with_entropy(700),
        field_with_entropy(200),
    ];
    let best = suite.select_best(&candidates).expect("non-empty batch");
    assert!(std::ptr::eq(best, &candidates[2]));
}

#[test]
fn select_best_of_empty_batch_is_absent() {
    let mut suite: CriticSuite<EntropyCritic> = CriticSuite::new();
    suite.add_critic(EntropyCritic, 100);
    let candidates: Vec<FractalField> = vec![];
    assert!(suite.select_best(&candidates).is_none());
}

#[test]
fn classify_delegates_to_heaviest_critic() {
    let mut suite: CriticSuite<CriticKind> = CriticSuite::new();
    suite.add_critic(CriticKind::Entropy(EntropyCritic), 10);
    suite.add_critic(CriticKind::Symmetry(SymmetryCritic), 90);
    // A purely real payload has phase 0, so the average phase is 0 and the
    // field classifies as symmetric.
    let f = FractalField {
        edges: vec![GraphEdge {
            origin: Vec3 { x: 0, y: 0, z: 0 },
            direction: Vec3 { x: 100, y: 0, z: 0 },
            length: 100,
            depth: 0,
            data: Complex { re: 500, im: 0 },
        }],
    };
    assert_eq!(suite.classify(&f), "symmetric");
    let chaotic = field_with_entropy(200000);
    assert_eq!(suite.classify(&chaotic), "chaotic");
    let structured = field_with_entropy(500);
    assert_eq!(suite.classify(&structured), "structured");
    let empty: CriticSuite<EntropyCritic> = CriticSuite::new();
    assert_eq!(empty.classify(&f), "unclassified");
}

#[test]
fn mutate_without_strategies_returns_equal_field() {
    let suite: MutationSuite<StochasticAmplitudePhase> = MutationSuite::new();
    let f = field_with_entropy(400);
    let out = suite.mutate(&f);
    assert!(out == f);
}

#[test]
fn mutate_with_one_strategy_always_invokes_it() {
    // One strategy at positive weight: the roulette scan can only pick it.
    // The strategy scales amplitudes by up to half a unit either way, so
    // across many runs at least one output must differ from the input,
    // while the geometry is always preserved.
    let mut suite: MutationSuite<StochasticAmplitudePhase> = MutationSuite::new();
    suite.add_strategy(
        StochasticAmplitudePhase { amplitude_jitter: 50, phase_jitter: 0 },
        250,
    );
    let f = field_with_entropy(10000);
    let mut saw_change = false;
    for _ in 0..64 {
        let out = suite.mutate(&f);
        assert_eq!(out.edges.len(), 1);
        assert_eq!(out.edges[0].origin, f.edges[0].origin);
        assert_eq!(out.edges[0].direction, f.edges[0].direction);
        assert_eq!(out.edges[0].length, f.edges[0].length);
        assert_eq!(out.edges[0].depth, f.edges[0].depth);
        if !(out == f) {
            saw_change = true;
        }
    }
    assert!(saw_change);
}

#[test]
fn run_with_zero_iterations_is_absent() {
    let engine = GeneratorCriticLoop {
        generator: EvolutionaryGenerator::<StochasticAmplitudePhase> {
            mutations: MutationSuite::new(),
            count: 4,
        },
        critic_suite: {
            let mut s: CriticSuite<EntropyCritic> = CriticSuite::new();
            s.add_critic(EntropyCritic, 100);
            s
        },
        iterations: 0,
    };
    assert!(engine.run().is_none());
    assert!(engine.run_with_report().is_none());
}

#[test]
fn report_history_covers_every_iteration() {
    let mut mutations: MutationSuite<StochasticAmplitudePhase> = MutationSuite::new();
    mutations.add_strategy(
        StochasticAmplitudePhase { amplitude_jitter: 30, phase_jitter: 1 },
        100,
    );
    let mut suite: CriticSuite<EntropyCritic> = CriticSuite::new();
    suite.add_critic(EntropyCritic, 100);
    let engine = GeneratorCriticLoop {
        generator: EvolutionaryGenerator { mutations, count: 3 },
        critic_suite: suite,
        iterations: 7,
    };
    let report = engine.run_with_report().expect("a best field exists");
    assert_eq!(report.history.len(), 7);
    // The reported best score is the suite's score of the reported best.
    let mut check: CriticSuite<EntropyCritic> = CriticSuite::new();
    check.add_critic(EntropyCritic, 100);
    assert_eq!(report.best_score, check.score(&report.best_field));
    // Every history entry carries its own score.
    for (field, score) in report.history.iter() {
        assert_eq!(*score, check.score(field));
    }
}

#[test]
fn running_best_never_decreases_even_when_history_dips() {
    let mut mutations: MutationSuite<StochasticAmplitudePhase> = MutationSuite::new();
    mutations.add_strategy(
        StochasticAmplitudePhase { amplitude_jitter: 60, phase_jitter: 1 },
        100,
    );
    let mut suite: CriticSuite<EntropyCritic> = CriticSuite::new();
    suite.add_critic(EntropyCritic, 100);
    let engine = GeneratorCriticLoop {
        generator: EvolutionaryGenerator { mutations, count: 2 },
        critic_suite: suite,
        iterations: 12,
    };
    let report = engine.run_with_report().expect("a best field exists");
    // Recompute the accepted running best under the strict-improvement
    // rule: it never decreases, and ends at the reported best score.
    let mut best: Option<i128> = None;
    for (_, score) in report.history.iter() {
        let prev = best;
        if best.is_none() || *score > best.unwrap() {
            best = Some(*score);
        }
        if let (Some(p), Some(b)) = (prev, best) {
            assert!(b >= p);
        }
    }
    assert_eq!(best, Some(report.best_score));
}

#[test]
fn field_algebra_checks_behave_as_documented() {
    assert!(fractal_algebra::tests::test_add_associativity());
    assert!(fractal_algebra::tests::test_add_commutativity());
    // Pointwise addition truncates to the shorter operand, so adding the
    // empty zero field does not give back the field it started from.
    assert!(!fractal_algebra::tests::test_add_identity());
    assert!(fractal_algebra::tests::test_add_inverse());
}

#[test]
fn algebra_laws_hold_on_small_inputs() {
    let a = fractal_algebra::testkit::canonical_test_fractal();
    let b = a.scale(Complex::new(200, 0));
    let c = a.scale(Complex::new(50, 50));
    assert!(fractal_algebra::laws::test_associativity(&a, &b, &c));
    assert!(fractal_algebra::laws::test_distributivity(&a, &b, Complex::new(300, 0)));
}

#[test]
fn signature_of_canonical_fractal_is_exact() {
    let a = fractal_algebra::testkit::canonical_test_fractal();
    let sig = a.signature();
    // Amplitudes: 100, 100, isqrt(100^2 + 100^2) = 141.
    assert_eq!(sig.total_amplitude, 341);
    // Phases: 0, 100 and 50 under the piecewise-linear angle measure.
    assert_eq!(sig.average_phase, 50);
    // Entropy: 0*0 + 100*100/100 + 141*50/100 = 170.
    assert_eq!(sig.entropy, 170);
    assert_eq!(sig.edge_count, 3);
    assert_eq!(sig.depth_range, (0, 0));
}

#[test]
fn evolutionary_generator_seeds_one_identity_field() {
    let generator = EvolutionaryGenerator::<StochasticAmplitudePhase> {
        mutations: MutationSuite::new(),
        count: 9,
    };
    let seed = generator.generate();
    assert_eq!(seed.len(), 1);
    assert!(seed[0] == FractalField::one());

    // An empty suite breeds exact copies of the parent, count of them.
    let parent = field_with_entropy(700);
    let bred = generator.mutate(&parent);
    assert_eq!(bred.len(), 9);
    for variant in bred.iter() {
        assert!(*variant == parent);
    }
}

#[test]
fn random_generator_populations_have_the_stated_shape() {
    let generator = RandomFieldGenerator { count: 4, mutation_strength: 30 };
    let population = generator.generate();
    assert_eq!(population.len(), 4);
    for field in population.iter() {
        assert_eq!(field.edges.len(), 5);
        for edge in field.edges.iter() {
            assert_eq!(edge.direction, Vec3 { x: 100, y: 0, z: 0 });
            assert_eq!(edge.length, 100);
            assert!(edge.depth < 5);
            assert!(-100 <= edge.data.re && edge.data.re < 100);
            assert!(-100 <= edge.data.im && edge.data.im < 100);
            assert!(-100 <= edge.origin.x && edge.origin.x < 100);
        }
    }

    let parent = field_with_entropy(5000);
    let bred = generator.mutate(&parent);
    assert_eq!(bred.len(), 4);
    for variant in bred.iter() {
        assert_eq!(variant.edges.len(), parent.edges.len());
        assert_eq!(variant.edges[0].origin, parent.edges[0].origin);
        assert_eq!(variant.edges[0].direction, parent.edges[0].direction);
        assert_eq!(variant.edges[0].length, parent.edges[0].length);
        assert_eq!(variant.edges[0].depth, parent.edges[0].depth);
    }
}

#[test]
fn plain_run_returns_a_produced_champion() {
    let mut mutations: MutationSuite<StochasticAmplitudePhase> = MutationSuite::new();
    mutations.add_strategy(
        StochasticAmplitudePhase { amplitude_jitter: 40, phase_jitter: 1 },
        100,
    );
    let mut suite: CriticSuite<EntropyCritic> = CriticSuite::new();
    suite.add_critic(EntropyCritic, 100);
    let engine = GeneratorCriticLoop {
        generator: EvolutionaryGenerator { mutations, count: 3 },
        critic_suite: suite,
        iterations: 6,
    };
    let best = engine.run().expect("a best field exists");
    // The returned best is a real candidate: one edge, geometry of the
    // identity seed preserved through every mutation.
    assert_eq!(best.edges.len(), 1);
    assert_eq!(best.edges[0].origin, Vec3 { x: 0, y: 0, z: 0 });
    assert_eq!(best.edges[0].direction, Vec3 { x: 100, y: 0, z: 0 });
    assert_eq!(best.edges[0].length, 100);
    assert_eq!(best.edges[0].depth, 0);
}
