//! The adaptive belief-space search. All quantities are in centi-units:
//! a stored value of `x` stands for the real number `x / 100`.

use fractal_algebra::ai::{EntropyPulse, FeedbackSignal, ProbabilisticSearch};
use fractal_algebra::bayes::FrequencyBeliefSpace;

#[test]
fn new_belief_space_starts_wide_with_worst_sentinel() {
    let space = FrequencyBeliefSpace::new(10000, 100);
    assert_eq!(space.frequency.mean, 10000);
    assert_eq!(space.frequency.std_dev, 5000);
    assert_eq!(space.amplitude.mean, 100);
    assert_eq!(space.amplitude.std_dev, 100);
    assert_eq!(space.best_guess.frequency, 10000);
    assert_eq!(space.best_guess.amplitude, 100);
    assert_eq!(space.best_guess.waveform, "sine");
    assert_eq!(space.best_feedback.correlation_strength, i64::MAX);
}

#[test]
fn one_update_moves_mean_and_anneals_spread() {
    // Initial frequency mean 100.00, spread 50.00. Feedback quality 5.00
    // beats the worst-possible sentinel, so the guess with frequency 120.00
    // becomes the best; the mean moves to 0.85 * 100 + 0.15 * 120 = 103.00
    // and the spread anneals to 50.00 * 0.9 = 45.00.
    let mut space = FrequencyBeliefSpace::new(10000, 100);
    let feedback = FeedbackSignal { correlation_strength: 500 };
    let guess = EntropyPulse {
        frequency: 12000,
        amplitude: 150,
        waveform: "sine".to_string(),
    };
    space.update(&feedback, &guess);
    assert_eq!(space.best_guess.frequency, 12000);
    assert_eq!(space.best_feedback.correlation_strength, 500);
    assert_eq!(space.frequency.mean, 10300);
    assert_eq!(space.frequency.std_dev, 4500);
    // The amplitude belief is deliberately left untouched by updates.
    assert_eq!(space.amplitude.mean, 100);
    assert_eq!(space.amplitude.std_dev, 100);
}

#[test]
fn spread_never_falls_below_the_floor() {
    let mut space = FrequencyBeliefSpace::new(10000, 100);
    let guess = EntropyPulse {
        frequency: 10000,
        amplitude: 100,
        waveform: "sine".to_string(),
    };
    for q in 0..200i64 {
        let feedback = FeedbackSignal { correlation_strength: 1000 - q };
        space.update(&feedback, &guess);
        assert!(space.frequency.std_dev >= 1);
    }
    // After many annealing steps the spread sits exactly on the floor.
    assert_eq!(space.frequency.std_dev, 1);
}

#[test]
fn best_memory_changes_only_on_strict_improvement() {
    let mut space = FrequencyBeliefSpace::new(10000, 100);
    let better = FeedbackSignal { correlation_strength: 700 };
    let first = EntropyPulse {
        frequency: 11000,
        amplitude: 90,
        waveform: "sine".to_string(),
    };
    space.update(&better, &first);
    assert_eq!(space.best_guess.frequency, 11000);

    // Equal feedback does not replace the memory, but the mean and the
    // spread still update.
    let mean_before = space.frequency.mean;
    let spread_before = space.frequency.std_dev;
    let equal = FeedbackSignal { correlation_strength: 700 };
    let second = EntropyPulse {
        frequency: 20000,
        amplitude: 90,
        waveform: "sine".to_string(),
    };
    space.update(&equal, &second);
    assert_eq!(space.best_guess.frequency, 11000);
    assert_eq!(space.best_feedback.correlation_strength, 700);
    assert_eq!(space.frequency.mean, (85 * mean_before + 15 * 11000) / 100);
    assert_eq!(space.frequency.std_dev, spread_before * 9 / 10);

    // Worse feedback leaves the memory alone as well.
    let worse = FeedbackSignal { correlation_strength: 900 };
    space.update(&worse, &second);
    assert_eq!(space.best_guess.frequency, 11000);
    assert_eq!(space.best_feedback.correlation_strength, 700);
}

#[test]
fn proposals_stay_within_six_spreads_of_the_mean() {
    let space = FrequencyBeliefSpace::new(10000, 100);
    for _ in 0..50 {
        let pulse = space.propose_best_guess();
        assert_eq!(pulse.waveform, "sine");
        assert!(pulse.frequency >= 10000 - 6 * 5000);
        assert!(pulse.frequency <= 10000 + 6 * 5000);
        assert!(pulse.amplitude >= 100 - 6 * 100);
        assert!(pulse.amplitude <= 100 + 6 * 100);
    }
}
