use std::sync::Arc;
use vstd::prelude::*;

use crate::parameters::{Parameters, PARAM_ONE};
use crate::pitch::NANOHERTZ_PER_HZ;

verus! {

/// The state of one oscillator: its frequency in nanohertz and its phase, the fraction
/// `phase / phase_den` of a cycle.
pub struct VoiceState {
    pub frequency: nat,
    pub phase: nat,
    pub phase_den: nat,
}

/// Phase units per cycle at a sample rate: one unit is the phase that a one-nanohertz
/// frequency advances in one sample, so that a frequency advances the phase by exactly
/// `frequency / sample_rate` cycles per sample.
pub open spec fn cycle_units(sample_rate: nat) -> nat {
    sample_rate * (NANOHERTZ_PER_HZ as nat)
}

/// The phase `phase / den` re-expressed over the denominator `d`, rounded down.
pub open spec fn rescale(phase: nat, den: nat, d: nat) -> nat {
    phase * d / den
}

/// The phase after one sample: advanced by `frequency / d` of a cycle, keeping only the
/// fractional part.
pub open spec fn advance(phase: nat, den: nat, frequency: nat, d: nat) -> nat {
    (rescale(phase, den, d) + frequency) % d
}

/// The square wave at phase `phase / den`: `-amplitude` while the phase is at most the pulse
/// width `pulse_width / PARAM_ONE`, `+amplitude` after it.
pub open spec fn square_level(phase: nat, den: nat, pulse_width: int, amplitude: int) -> int {
    if phase * PARAM_ONE <= pulse_width * den {
        -amplitude
    } else {
        amplitude
    }
}

/// The state of a voice after one sample at the sample rate whose cycle is `d` units.
pub open spec fn advance_voice(v: VoiceState, d: nat) -> VoiceState {
    VoiceState {
        frequency: v.frequency,
        phase: advance(v.phase, v.phase_den, v.frequency, d),
        phase_den: d,
    }
}

/// The state of a voice after `k` samples at the sample rate whose cycle is `d` units.
pub open spec fn voice_after(v: VoiceState, d: nat, k: nat) -> VoiceState
    decreases k,
{
    if k == 0 {
        v
    } else {
        advance_voice(voice_after(v, d, (k - 1) as nat), d)
    }
}

/// A well-formed voice: its phase lies in `[0, 1)`.
pub open spec fn voice_wf(v: VoiceState) -> bool {
    0 < v.phase_den && v.phase < v.phase_den
}

/// A square-wave oscillator driven by a phase accumulator, whose amplitude and pulse width are
/// read from shared parameters on every sample.
pub struct SquareOscillator {
    parameters: Arc<Parameters>,
    frequency: u64,
    phase: u64,
    phase_den: u64,
}

impl View for SquareOscillator {
    type V = VoiceState;

    closed spec fn view(&self) -> VoiceState {
        VoiceState {
            frequency: self.frequency as nat,
            phase: self.phase as nat,
            phase_den: self.phase_den as nat,
        }
    }
}

proof fn lemma_rescale_bound(phase: nat, den: nat, d: nat)
    requires
        phase < den,
    ensures
        rescale(phase, den, d) < d || d == 0,
        den == d ==> rescale(phase, den, d) == phase,
{
    if d > 0 {
        assert(phase * d < den * d) by (nonlinear_arith)
            requires
                phase < den,
                d > 0,
        ;
        assert(phase * d / den < d) by (nonlinear_arith)
            requires
                phase * d < den * d,
                phase < den,
        ;
    }
    if den == d {
        assert(phase * d / den == phase) by (nonlinear_arith)
            requires
                den == d,
                phase < den,
        ;
    }
}

/// Repeated samples at one sample rate each advance the phase by `frequency / sample_rate` of a
/// cycle, modulo one cycle, and the phase stays in `[0, 1)`: from phase `p / d`, after `k`
/// samples the phase is `((p + k * frequency) mod d) / d`.
pub proof fn lemma_phase_accumulates(v: VoiceState, d: nat, k: nat)
    requires
        voice_wf(v),
        v.phase_den == d,
    ensures
        voice_after(v, d, k) == (VoiceState {
            frequency: v.frequency,
            phase: (v.phase + k * v.frequency) % d,
            phase_den: d,
        }),
        voice_wf(voice_after(v, d, k)),
    decreases k,
{
    if k == 0 {
        vstd::arithmetic::div_mod::lemma_small_mod(v.phase, d);
    } else {
        let k1 = (k - 1) as nat;
        lemma_phase_accumulates(v, d, k1);
        let q = (v.phase + k1 * v.frequency) % d;
        lemma_rescale_bound(q, d, d);
        vstd::arithmetic::div_mod::lemma_add_mod_noop(
            (v.phase + k1 * v.frequency) as int,
            v.frequency as int,
            d as int,
        );
        vstd::arithmetic::div_mod::lemma_mod_twice((v.phase + k1 * v.frequency) as int, d as int);
        vstd::arithmetic::div_mod::lemma_add_mod_noop(q as int, v.frequency as int, d as int);
        assert(v.phase + k1 * v.frequency + v.frequency == v.phase + k * v.frequency)
            by (nonlinear_arith)
            requires
                k1 + 1 == k,
        ;
        vstd::arithmetic::div_mod::lemma_mod_bound((v.phase + k * v.frequency) as int, d as int);
    }
}

/// From phase 0, written over any denominator (a new oscillator starts at `0 / 1`), `k >= 1`
/// samples at one sample rate leave the phase at `((k * frequency) mod d) / d`: the sum of the
/// `k` steps of `frequency / sample_rate` cycles, reduced to `[0, 1)`.
pub proof fn lemma_phase_from_zero(v: VoiceState, d: nat, k: nat)
    requires
        voice_wf(v),
        v.phase == 0,
        d > 0,
        k >= 1,
    ensures
        voice_after(v, d, k) == (VoiceState {
            frequency: v.frequency,
            phase: (k * v.frequency) % d,
            phase_den: d,
        }),
        voice_wf(voice_after(v, d, k)),
    decreases k,
{
    let f = v.frequency;
    if k == 1 {
        assert(voice_after(v, d, 0) == v);
        assert(rescale(0, v.phase_den, d) == 0);
        vstd::arithmetic::div_mod::lemma_mod_bound(f as int, d as int);
    } else {
        let k1 = (k - 1) as nat;
        lemma_phase_from_zero(v, d, k1);
        let q = (k1 * f) % d;
        lemma_rescale_bound(q, d, d);
        vstd::arithmetic::div_mod::lemma_mod_twice((k1 * f) as int, d as int);
        vstd::arithmetic::div_mod::lemma_add_mod_noop((k1 * f) as int, f as int, d as int);
        vstd::arithmetic::div_mod::lemma_add_mod_noop(q as int, f as int, d as int);
        assert(k1 * f + f == k * f) by (nonlinear_arith)
            requires
                k1 + 1 == k,
        ;
        vstd::arithmetic::div_mod::lemma_mod_bound((k * f) as int, d as int);
    }
}

/// At amplitude 0 the square wave is silent, whatever the phase and the pulse width.
pub proof fn lemma_zero_amplitude_level(phase: nat, den: nat, pulse_width: int)
    ensures
        square_level(phase, den, pulse_width, 0) == 0,
{
}

impl SquareOscillator {
    pub open spec fn wf(&self) -> bool {
        voice_wf(self@)
    }

    /// The shared parameters that this oscillator reads.
    pub closed spec fn params(&self) -> Arc<Parameters> {
        self.parameters
    }

    /// A silent oscillator (frequency 0) at phase 0.
    pub fn new(parameters: Arc<Parameters>) -> (r: Self)
        ensures
            r.wf(),
            r@ == (VoiceState { frequency: 0, phase: 0, phase_den: 1 }),
            r.params() == parameters,
    {
        Self { parameters, frequency: 0, phase: 0, phase_den: 1 }
    }

    /// Sets the frequency, in nanohertz, used from the next sample on.
    pub fn change_frequency(&mut self, frequency: u64)
        requires
            old(self).wf(),
        ensures
            final(self).wf(),
            final(self)@ == (VoiceState { frequency: frequency as nat, ..old(self)@ }),
            final(self).params() == old(self).params(),
    {
        self.frequency = frequency;
    }

    /// The frequency in nanohertz.
    pub fn frequency(&self) -> (r: u64)
        ensures
            r == self@.frequency,
    {
        self.frequency
    }

    /// The phase as a fraction `(numerator, denominator)` of a cycle.
    pub fn phase(&self) -> (r: (u64, u64))
        ensures
            r.0 == self@.phase,
            r.1 == self@.phase_den,
    {
        (self.phase, self.phase_den)
    }

    /// Produces one sample at the given amplitude and pulse width and advances the phase by
    /// `frequency / sample_rate` cycles. The level is taken at the phase before the advance. If
    /// the sample rate differs from that of the previous sample, the phase is first re-expressed
    /// in units of the new rate, rounded down.
    pub fn next_sample_with(&mut self, sample_rate: u32, amplitude: i32, pulse_width: i32) -> (r:
        i64)
        requires
            old(self).wf(),
            sample_rate > 0,
        ensures
            final(self).wf(),
            final(self)@ == advance_voice(old(self)@, cycle_units(sample_rate as nat)),
            final(self).params() == old(self).params(),
            r == square_level(old(self)@.phase, old(self)@.phase_den, pulse_width as int, amplitude as int),
    {
        let d: u64 = sample_rate as u64 * NANOHERTZ_PER_HZ;
        proof {
            let p = self.phase as nat;
            let den = self.phase_den as nat;
            let m = 0x1_0000_0000_0000_0000nat;
            assert(p * 1_000_000 < m * m) by (nonlinear_arith)
                requires
                    p < m,
                    1_000_000 < m,
            ;
            assert(pulse_width >= 0 ==> (pulse_width as nat) * den < m * m) by (nonlinear_arith)
                requires
                    den < m,
                    pulse_width < m,
            ;
            assert(p * (d as nat) < m * m) by (nonlinear_arith)
                requires
                    p < m,
                    d < m,
            ;
        }
        let low = pulse_width >= 0 && (self.phase as u128) * (PARAM_ONE as u128) <= (
        pulse_width as u128) * (self.phase_den as u128);
        proof {
            if pulse_width < 0 {
                assert((self.phase as int) * PARAM_ONE >= 0) by (nonlinear_arith);
                assert((pulse_width as int) * (self.phase_den as int) < 0) by (nonlinear_arith)
                    requires
                        pulse_width < 0,
                        self.phase_den > 0,
                ;
            }
            lemma_rescale_bound(self.phase as nat, self.phase_den as nat, d as nat);
            vstd::arithmetic::div_mod::lemma_add_mod_noop(
                rescale(self.phase as nat, self.phase_den as nat, d as nat) as int,
                self.frequency as int,
                d as int,
            );
        }
        let current: u64 = if self.phase_den == d {
            self.phase
        } else {
            ((self.phase as u128) * (d as u128) / (self.phase_den as u128)) as u64
        };
        proof {
            let x = rescale(self.phase as nat, self.phase_den as nat, d as nat);
            assert(current == x);
            vstd::arithmetic::div_mod::lemma_small_mod(current as nat, d as nat);
            assert(((current as int) % (d as int) + (self.frequency as int) % (d as int)) % (
            d as int) == ((x + self.frequency) as int) % (d as int));
        }
        self.phase = (current + self.frequency % d) % d;
        self.phase_den = d;
        if low {
            -(amplitude as i64)
        } else {
            amplitude as i64
        }
    }

    /// Produces one sample, reading amplitude and pulse width from the shared parameters, and
    /// advances the phase by `frequency / sample_rate` cycles.
    pub fn next_sample(&mut self, sample_rate: u32) -> (r: i64)
        requires
            old(self).wf(),
            sample_rate > 0,
        ensures
            final(self).wf(),
            final(self)@ == advance_voice(old(self)@, cycle_units(sample_rate as nat)),
            final(self).params() == old(self).params(),
            exists|pulse_width: i32, amplitude: i32|
                r == square_level(old(self)@.phase, old(self)@.phase_den, pulse_width as int, amplitude as int),
    {
        let pulse_width = self.parameters.pulse_width.get();
        let amplitude = self.parameters.amplitude.get();
        self.next_sample_with(sample_rate, amplitude, pulse_width)
    }
}

} // verus!
