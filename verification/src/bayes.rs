//! An adaptive, belief-driven search over two scalar parameters.
//!
//! `FrequencyBeliefSpace` models the frequency and amplitude of a pulse as
//! independent Gaussian beliefs in fixed point. It proposes pulses by
//! sampling those beliefs, remembers the best guess it has ever made, and on
//! each update nudges the frequency mean toward that best guess by an
//! exponential moving average, anneals the frequency spread by a fixed
//! decay, and never lets the spread fall below a fixed floor.

use vstd::prelude::*;
use vstd::string::StringExecFns;
use crate::ai::{EntropyPulse, FeedbackSignal, ProbabilisticSearch};
use crate::numeric::{floor_div, sat64, sat_to_i64};
use crate::random::rand_between;

verus! {

/// A Gaussian belief about one parameter: the mean is the current best
/// guess and the standard deviation the scope of exploration, both in
/// centi-units.
#[derive(Clone, Copy, Debug, PartialEq, Eq, Structural)]
pub struct Gaussian {
    pub mean: i64,
    pub std_dev: i64,
}

/// The learning rate of the mean update: 0.15, as the pair (15, 100).
/// `ema_step` nudges a mean toward a target by this fraction.
pub open spec fn ema_step(mean: int, target: int) -> int {
    (85 * mean + 15 * target) / 100
}

/// One annealing step of the spread: a multiplicative decay by 0.9, floored
/// at one centi-unit (0.01) so exploration never collapses entirely.
pub open spec fn anneal_step(s: int) -> int {
    if 9 * s / 10 < 1 {
        1
    } else {
        9 * s / 10
    }
}

/// The frequency spread a fresh belief space starts with: wide, to favour
/// broad exploration (50 whole units).
pub open spec fn initial_frequency_spread() -> int {
    5000
}

/// The amplitude spread a fresh belief space starts with (one whole unit).
pub open spec fn initial_amplitude_spread() -> int {
    100
}

/// The searcher's entire belief state: one Gaussian per parameter, plus its
/// permanent memory of the best pulse seen so far and the feedback that
/// pulse earned.
pub struct FrequencyBeliefSpace {
    /// The belief about the pulse's frequency.
    pub frequency: Gaussian,
    /// The belief about the pulse's amplitude.
    pub amplitude: Gaussian,
    /// The best pulse found so far.
    pub best_guess: EntropyPulse,
    /// The feedback of `best_guess`: the smallest error seen.
    pub best_feedback: FeedbackSignal,
}

impl FrequencyBeliefSpace {
    /// Both spreads stay at or above the floor of one centi-unit, so
    /// sampling never degenerates.
    pub open spec fn wf(&self) -> bool {
        self.frequency.std_dev >= 1 && self.amplitude.std_dev >= 1
    }

    /// A fresh belief space around the given initial guesses. The frequency
    /// spread starts wide and the amplitude spread at one unit; the best
    /// feedback starts at the worst possible value, so the first real
    /// feedback is always accepted as an improvement.
    pub fn new(initial_freq: i64, initial_amp: i64) -> (r: Self)
        ensures
            r.frequency == (Gaussian { mean: initial_freq, std_dev: 5000 }),
            r.amplitude == (Gaussian { mean: initial_amp, std_dev: 100 }),
            r.best_guess.frequency == initial_freq,
            r.best_guess.amplitude == initial_amp,
            r.best_guess.waveform@ == "sine"@,
            r.best_feedback.correlation_strength == i64::MAX,
            r.wf(),
    {
        let initial_guess = EntropyPulse {
            frequency: initial_freq,
            amplitude: initial_amp,
            waveform: String::from_str("sine"),
        };
        FrequencyBeliefSpace {
            frequency: Gaussian { mean: initial_freq, std_dev: 5000 },
            amplitude: Gaussian { mean: initial_amp, std_dev: 100 },
            best_guess: initial_guess,
            best_feedback: FeedbackSignal { correlation_strength: i64::MAX },
        }
    }
}

/// Samples a belief: the mean plus the spread times a centered noise value.
/// The noise is the sum of twelve uniform draws, an integer approximation of
/// a standard Gaussian with one whole unit of standard deviation.
fn sample_gaussian(g: &Gaussian) -> (r: i64)
    requires
        g.std_dev >= 1,
    ensures
        exists|noise: int|
            -600 <= noise <= 600 && r as int == sat64(
                g.mean + #[trigger] spec_offset(g.std_dev as int, noise)),
{
    let mut noise: i64 = 0;
    let mut k: usize = 0;
    while k < 12
        invariant
            k <= 12,
            -(50 * k as int) <= noise as int,
            noise as int <= 50 * k as int,
        decreases 12 - k,
    {
        noise = noise + rand_between(-50, 50);
        k = k + 1;
    }
    proof {
        assert(-600 * 0x8000_0000_0000_0000i128 <= g.std_dev as int * noise as int
            && g.std_dev as int * noise as int <= 600 * 0x8000_0000_0000_0000i128)
            by (nonlinear_arith)
            requires
                -0x8000_0000_0000_0000i128 <= g.std_dev <= 0x8000_0000_0000_0000i128,
                -600 <= noise <= 600,
        ;
    }
    let scaled: i128 = floor_div(g.std_dev as i128 * noise as i128, 100);
    let out: i64 = sat_to_i64(g.mean as i128 + scaled);
    proof {
        assert(out as int == sat64(g.mean + spec_offset(g.std_dev as int, noise as int)));
    }
    out
}

/// The spread-scaled offset a noise value produces.
pub open spec fn spec_offset(std_dev: int, noise: int) -> int {
    std_dev * noise / 100
}

impl ProbabilisticSearch for FrequencyBeliefSpace {
    /// Every proposal is the mean of each belief, offset by at most six
    /// standard deviations, with the fixed waveform label.
    open spec fn propose_post(&self, r: &EntropyPulse) -> bool {
        &&& r.waveform@ == "sine"@
        &&& exists|noise: int|
            -600 <= noise <= 600 && r.frequency as int == sat64(
                self.frequency.mean + #[trigger] spec_offset(self.frequency.std_dev as int, noise))
        &&& exists|noise: int|
            -600 <= noise <= 600 && r.amplitude as int == sat64(
                self.amplitude.mean + #[trigger] spec_offset(self.amplitude.std_dev as int, noise))
    }

    /// One update step: the best-guess memory is replaced exactly when the
    /// new feedback is strictly better (numerically lower); the frequency
    /// mean moves toward the best guess by the fixed learning rate; the
    /// frequency spread decays and is floored; the amplitude belief is left
    /// untouched.
    open spec fn update_post(
        &self,
        next: &Self,
        feedback: &FeedbackSignal,
        last_guess: &EntropyPulse,
    ) -> bool {
        let improved = feedback.correlation_strength < self.best_feedback.correlation_strength;
        &&& next.best_feedback == (if improved { *feedback } else { self.best_feedback })
        &&& next.best_guess == (if improved { *last_guess } else { self.best_guess })
        &&& next.frequency.mean as int == ema_step(
            self.frequency.mean as int, next.best_guess.frequency as int)
        &&& next.frequency.std_dev as int == anneal_step(self.frequency.std_dev as int)
        &&& next.amplitude == self.amplitude
    }

    open spec fn inv(&self) -> bool {
        self.wf()
    }

    /// Proposes a new pulse by sampling each belief independently.
    fn propose_best_guess(&self) -> (r: EntropyPulse)
        ensures
            self.propose_post(&r),
    {
        EntropyPulse {
            frequency: sample_gaussian(&self.frequency),
            amplitude: sample_gaussian(&self.amplitude),
            waveform: String::from_str("sine"),
        }
    }

    /// Updates the beliefs from the feedback on the last guess.
    fn update(&mut self, feedback: &FeedbackSignal, last_guess: &EntropyPulse)
        ensures
            final(self).inv(),
            old(self).update_post(final(self), feedback, last_guess),
    {
        // Remember the best guess ever made, under strict improvement.
        if feedback.correlation_strength < self.best_feedback.correlation_strength {
            self.best_feedback = *feedback;
            self.best_guess = last_guess.clone();
        }

        // Nudge the frequency mean toward the best-known frequency.
        let m: i128 = 85 * self.frequency.mean as i128 + 15 * self.best_guess.frequency as i128;
        proof {
            lemma_ema_in_range(self.frequency.mean as int, self.best_guess.frequency as int);
        }
        self.frequency.mean = sat_to_i64(floor_div(m, 100));

        // Anneal the frequency spread, but never below the floor.
        let shrunk: i128 = self.frequency.std_dev as i128 * 9 / 10;
        if shrunk < 1 {
            self.frequency.std_dev = 1;
        } else {
            proof {
                vstd::arithmetic::div_mod::lemma_div_is_ordered(
                    9 * self.frequency.std_dev as int, 10 * self.frequency.std_dev as int, 10);
                vstd::arithmetic::div_mod::lemma_div_by_multiple(
                    self.frequency.std_dev as int, 10);
            }
            self.frequency.std_dev = shrunk as i64;
        }
    }
}

/// A convex mix of two i64 values under the learning rate stays in range.
proof fn lemma_ema_in_range(mean: int, target: int)
    requires
        i64::MIN <= mean <= i64::MAX,
        i64::MIN <= target <= i64::MAX,
    ensures
        i64::MIN <= ema_step(mean, target) <= i64::MAX,
        sat64(ema_step(mean, target)) == ema_step(mean, target),
{
    let x = 85 * mean + 15 * target;
    assert(100 * i64::MIN <= x <= 100 * i64::MAX);
    vstd::arithmetic::div_mod::lemma_div_is_ordered(100 * i64::MIN as int, x, 100);
    vstd::arithmetic::div_mod::lemma_div_is_ordered(x, 100 * i64::MAX as int, 100);
    vstd::arithmetic::div_mod::lemma_div_multiples_vanish(i64::MIN as int, 100);
    vstd::arithmetic::div_mod::lemma_div_multiples_vanish(i64::MAX as int, 100);
}

} // verus!
