use std::sync::Arc;
use vstd::prelude::*;

use crate::midi_input_processor::NOTE_COUNT;
use crate::parameters::Parameters;
use crate::pitch::{midi_pitch_to_freq, note_frequency};
use crate::square_oscillator::{
    advance_voice,
    cycle_units,
    square_level,
    voice_after,
    voice_wf,
    SquareOscillator,
    VoiceState,
};

verus! {

/// Sample rate, in hertz, of an engine made by `AudioEngine::new`.
pub const DEFAULT_SAMPLE_RATE: u32 = 44100;

/// A set of active notes as the engine takes it: distinct valid note identifiers, in any order.
pub open spec fn valid_notes(notes: Seq<u8>) -> bool {
    &&& notes.no_duplicates()
    &&& forall|i: int| 0 <= i < notes.len() ==> notes[i] < NOTE_COUNT
}

/// The bank of voices after `k` samples in which the voices of `notes` sounded: each of those
/// has advanced `k` times, every other voice is as it was.
pub open spec fn voices_after(voices: Seq<VoiceState>, notes: Seq<u8>, d: nat, k: nat) -> Seq<
    VoiceState,
> {
    Seq::new(
        voices.len(),
        |i: int|
            if notes.contains(i as u8) {
                voice_after(voices[i], d, k)
            } else {
                voices[i]
            },
    )
}

/// One output sample: the sum over `notes` of the square-wave level of each note's voice.
pub open spec fn mix(voices: Seq<VoiceState>, notes: Seq<u8>, pulse_width: int, amplitude: int) -> int
    decreases notes.len(),
{
    if notes.len() == 0 {
        0
    } else {
        let v = voices[notes.last() as int];
        mix(voices, notes.drop_last(), pulse_width, amplitude) + square_level(
            v.phase,
            v.phase_den,
            pulse_width,
            amplitude,
        )
    }
}

/// Sample `i` of a block rendered from `voices` with the given active notes and parameters.
pub open spec fn block_sample(
    voices: Seq<VoiceState>,
    notes: Seq<u8>,
    d: nat,
    pulse_width: int,
    amplitude: int,
    i: nat,
) -> int {
    mix(voices_after(voices, notes, d, i), notes, pulse_width, amplitude)
}

proof fn lemma_valid_notes_len(notes: Seq<u8>)
    requires
        valid_notes(notes),
    ensures
        notes.len() <= NOTE_COUNT,
{
    let ints = notes.map_values(|x: u8| x as int);
    assert(ints.no_duplicates()) by {
        assert forall|i: int, j: int| 0 <= i < j < ints.len() implies ints[i] != ints[j] by {
            assert(notes[i] != notes[j]);
        }
    }
    ints.unique_seq_to_set();
    let range = vstd::set_lib::set_int_range(0, NOTE_COUNT as int);
    vstd::set_lib::lemma_int_range(0, NOTE_COUNT as int);
    assert(ints.to_set().subset_of(range)) by {
        assert forall|x: int| ints.to_set().contains(x) implies range.contains(x) by {
            let i = choose|i: int| 0 <= i < ints.len() && ints[i] == x;
            assert(notes[i] < NOTE_COUNT);
        }
    }
    vstd::set_lib::lemma_len_subset(ints.to_set(), range);
}

proof fn lemma_level_bound(v: VoiceState, pulse_width: int, amplitude: i32)
    ensures
        -0x8000_0000 <= square_level(v.phase, v.phase_den, pulse_width, amplitude as int) <= 0x8000_0000,
{
}

proof fn lemma_mix_remove(voices: Seq<VoiceState>, notes: Seq<u8>, k: int, pulse_width: int, amplitude: int)
    requires
        0 <= k < notes.len(),
    ensures
        mix(voices, notes, pulse_width, amplitude) == mix(voices, notes.remove(k), pulse_width, amplitude)
            + square_level(
            voices[notes[k] as int].phase,
            voices[notes[k] as int].phase_den,
            pulse_width,
            amplitude,
        ),
    decreases notes.len(),
{
    if k == notes.len() - 1 {
        assert(notes.remove(k) =~= notes.drop_last());
    } else {
        lemma_mix_remove(voices, notes.drop_last(), k, pulse_width, amplitude);
        assert(notes.remove(k).drop_last() =~= notes.drop_last().remove(k));
        assert(notes.remove(k).last() == notes.last());
    }
}

/// The mix of a set of active notes does not depend on the order in which they are listed.
pub proof fn lemma_mix_order_independent(
    voices: Seq<VoiceState>,
    notes1: Seq<u8>,
    notes2: Seq<u8>,
    pulse_width: int,
    amplitude: int,
)
    requires
        valid_notes(notes1),
        valid_notes(notes2),
        forall|n: u8| notes1.contains(n) <==> notes2.contains(n),
    ensures
        mix(voices, notes1, pulse_width, amplitude) == mix(voices, notes2, pulse_width, amplitude),
    decreases notes1.len(),
{
    if notes1.len() == 0 {
        if notes2.len() > 0 {
            assert(notes2.contains(notes2[0]));
        }
    } else {
        let x = notes1.last();
        assert(notes1.contains(x));
        let k = choose|k: int| 0 <= k < notes2.len() && notes2[k] == x;
        let rest1 = notes1.drop_last();
        let rest2 = notes2.remove(k);
        assert forall|n: u8| rest1.contains(n) <==> rest2.contains(n) by {
            if rest1.contains(n) {
                let i = choose|i: int| 0 <= i < rest1.len() && rest1[i] == n;
                assert(notes1[i] == n && n != x);
                assert(notes2.contains(n));
                let j = choose|j: int| 0 <= j < notes2.len() && notes2[j] == n;
                assert(j != k);
                if j < k {
                    assert(rest2[j] == n);
                } else {
                    assert(rest2[j - 1] == n);
                }
            }
            if rest2.contains(n) {
                let j = choose|j: int| 0 <= j < rest2.len() && rest2[j] == n;
                let j2 = if j < k { j } else { j + 1 };
                assert(notes2[j2] == n && n != x);
                assert(notes1.contains(n));
                let i = choose|i: int| 0 <= i < notes1.len() && notes1[i] == n;
                assert(i != notes1.len() - 1);
                assert(rest1[i] == n);
            }
        }
        assert(valid_notes(rest2)) by {
            assert forall|i: int, j: int| 0 <= i < j < rest2.len() implies rest2[i] != rest2[j] by {
                let i2 = if i < k { i } else { i + 1 };
                let j2 = if j < k { j } else { j + 1 };
                assert(notes2[i2] != notes2[j2]);
            }
            assert forall|i: int| 0 <= i < rest2.len() implies rest2[i] < NOTE_COUNT by {
                let i2 = if i < k { i } else { i + 1 };
                assert(notes2[i2] < NOTE_COUNT);
            }
        }
        lemma_mix_order_independent(voices, rest1, rest2, pulse_width, amplitude);
        lemma_mix_remove(voices, notes2, k, pulse_width, amplitude);
    }
}

/// A block rendered from a set of active notes, and the voices it leaves behind, do not depend
/// on the order in which the notes are listed.
pub proof fn lemma_block_order_independent(
    voices: Seq<VoiceState>,
    notes1: Seq<u8>,
    notes2: Seq<u8>,
    d: nat,
    pulse_width: int,
    amplitude: int,
    i: nat,
)
    requires
        valid_notes(notes1),
        valid_notes(notes2),
        forall|n: u8| notes1.contains(n) <==> notes2.contains(n),
    ensures
        block_sample(voices, notes1, d, pulse_width, amplitude, i) == block_sample(
            voices,
            notes2,
            d,
            pulse_width,
            amplitude,
            i,
        ),
        voices_after(voices, notes1, d, i) == voices_after(voices, notes2, d, i),
{
    assert(voices_after(voices, notes1, d, i) =~= voices_after(voices, notes2, d, i));
    lemma_mix_order_independent(voices_after(voices, notes1, d, i), notes1, notes2, pulse_width, amplitude);
}

/// At amplitude 0 every sample of a block is 0, whatever the active notes, the phases and the
/// pulse width.
pub proof fn lemma_zero_amplitude_block(
    voices: Seq<VoiceState>,
    notes: Seq<u8>,
    d: nat,
    pulse_width: int,
    i: nat,
)
    ensures
        block_sample(voices, notes, d, pulse_width, 0, i) == 0,
{
    lemma_zero_amplitude_mix(voices_after(voices, notes, d, i), notes, pulse_width);
}

proof fn lemma_zero_amplitude_mix(voices: Seq<VoiceState>, notes: Seq<u8>, pulse_width: int)
    ensures
        mix(voices, notes, pulse_width, 0) == 0,
    decreases notes.len(),
{
    if notes.len() > 0 {
        lemma_zero_amplitude_mix(voices, notes.drop_last(), pulse_width);
    }
}

/// A bank of 128 square-wave oscillators, one per MIDI note, tuned to equal temperament.
pub struct AudioEngine {
    oscillators: Vec<SquareOscillator>,
    sample_rate: u32,
}

impl AudioEngine {
    /// The state of each voice, indexed by note identifier.
    pub closed spec fn voices(&self) -> Seq<VoiceState> {
        self.oscillators@.map_values(|o: SquareOscillator| o@)
    }

    /// The shared parameters that each voice reads, indexed by note identifier.
    pub closed spec fn voice_params(&self) -> Seq<Arc<Parameters>> {
        self.oscillators@.map_values(|o: SquareOscillator| o.params())
    }

    /// The sample rate in hertz.
    pub closed spec fn rate(&self) -> nat {
        self.sample_rate as nat
    }

    /// One voice per note identifier, each tuned to its note, with its phase in `[0, 1)`.
    pub open spec fn wf(&self) -> bool {
        &&& self.voices().len() == NOTE_COUNT
        &&& self.rate() > 0
        &&& forall|i: int|
            0 <= i < NOTE_COUNT ==> {
                &&& voice_wf(#[trigger] self.voices()[i])
                &&& self.voices()[i].frequency == note_frequency(i as nat)
            }
    }

    /// An engine at the default sample rate of 44100 Hz.
    pub fn new(params: Arc<Parameters>) -> (r: Self)
        ensures
            r.wf(),
            r.rate() == DEFAULT_SAMPLE_RATE,
            forall|i: int|
                0 <= i < NOTE_COUNT ==> (#[trigger] r.voices()[i]).phase == 0,
            forall|i: int| 0 <= i < NOTE_COUNT ==> #[trigger] r.voice_params()[i] == params,
    {
        Self::with_sample_rate(params, DEFAULT_SAMPLE_RATE)
    }

    /// An engine whose 128 voices are tuned to their notes and start at phase 0.
    pub fn with_sample_rate(params: Arc<Parameters>, sample_rate: u32) -> (r: Self)
        requires
            sample_rate > 0,
        ensures
            r.wf(),
            r.rate() == sample_rate,
            forall|i: int|
                0 <= i < NOTE_COUNT ==> (#[trigger] r.voices()[i]).phase == 0,
            forall|i: int| 0 <= i < NOTE_COUNT ==> #[trigger] r.voice_params()[i] == params,
    {
        let mut oscillators: Vec<SquareOscillator> = Vec::new();
        let mut note: u8 = 0;
        while note < NOTE_COUNT
            invariant
                note <= NOTE_COUNT,
                oscillators@.len() == note,
                forall|i: int|
                    0 <= i < note ==> {
                        &&& voice_wf(#[trigger] oscillators@[i]@)
                        &&& oscillators@[i]@.frequency == note_frequency(i as nat)
                        &&& oscillators@[i]@.phase == 0
                        &&& oscillators@[i].params() == params
                    },
            decreases NOTE_COUNT - note,
        {
            let mut oscillator = SquareOscillator::new(params.clone());
            oscillator.change_frequency(midi_pitch_to_freq(note));
            oscillators.push(oscillator);
            note = note + 1;
        }
        let r = Self { oscillators, sample_rate };
        proof {
            assert forall|i: int| 0 <= i < NOTE_COUNT implies #[trigger] r.voice_params()[i] == params by {
                assert(voice_wf(r.oscillators@[i]@));
            }
        }
        r
    }

    /// Renders `num_samples` mono samples from the voices of `active_notes`. With `levels` set to
    /// `Some((amplitude, pulse_width))` every voice plays at those values; with `None` each voice
    /// reads the shared parameters on every sample.
    fn render(&mut self, num_samples: usize, active_notes: &Vec<u8>, levels: Option<(i32, i32)>) -> (r:
        Vec<i64>)
        requires
            old(self).wf(),
            valid_notes(active_notes@),
        ensures
            final(self).wf(),
            final(self).rate() == old(self).rate(),
            final(self).voice_params() == old(self).voice_params(),
            final(self).voices() == voices_after(
                old(self).voices(),
                active_notes@,
                cycle_units(old(self).rate()),
                num_samples as nat,
            ),
            r@.len() == num_samples,
            forall|amplitude: i32, pulse_width: i32, i: int|
                levels == Some((amplitude, pulse_width)) && 0 <= i < num_samples ==> r@[i]
                    == block_sample(
                    old(self).voices(),
                    active_notes@,
                    cycle_units(old(self).rate()),
                    pulse_width as int,
                    amplitude as int,
                    i as nat,
                ),
            active_notes@.len() == 0 ==> forall|i: int| 0 <= i < num_samples ==> r@[i] == 0,
    {
        let ghost start = self.voices();
        let ghost notes = active_notes@;
        let ghost dd = cycle_units(self.rate());
        let ghost rate = self.rate();
        let ghost params = self.voice_params();
        proof {
            lemma_valid_notes_len(notes);
        }
        let mut samples: Vec<i64> = Vec::new();
        let mut s: usize = 0;
        while s < num_samples
            invariant
                self.wf(),
                self.rate() == rate,
                self.voice_params() == params,
                dd == cycle_units(rate),
                notes == active_notes@,
                valid_notes(notes),
                notes.len() <= NOTE_COUNT,
                s <= num_samples,
                samples@.len() == s,
                self.voices() == voices_after(start, notes, dd, s as nat),
                forall|amplitude: i32, pulse_width: i32, i: int|
                    levels == Some((amplitude, pulse_width)) && 0 <= i < s ==> samples@[i]
                        == block_sample(start, notes, dd, pulse_width as int, amplitude as int, i as nat),
                notes.len() == 0 ==> forall|i: int| 0 <= i < s ==> samples@[i] == 0,
            decreases num_samples - s,
        {
            let ghost cur = self.voices();
            let mut acc: i64 = 0;
            let mut j: usize = 0;
            while j < active_notes.len()
                invariant
                    self.rate() == rate,
                    self.voice_params() == params,
                    self.sample_rate > 0,
                    dd == cycle_units(rate),
                    notes == active_notes@,
                    valid_notes(notes),
                    notes.len() <= NOTE_COUNT,
                    cur.len() == NOTE_COUNT,
                    self.oscillators@.len() == NOTE_COUNT,
                    j <= notes.len(),
                    forall|i: int|
                        0 <= i < NOTE_COUNT ==> {
                            &&& voice_wf(#[trigger] self.voices()[i])
                            &&& self.voices()[i].frequency == note_frequency(i as nat)
                        },
                    self.voices() == Seq::new(
                        NOTE_COUNT as nat,
                        |i: int|
                            if notes.take(j as int).contains(i as u8) {
                                advance_voice(cur[i], dd)
                            } else {
                                cur[i]
                            },
                    ),
                    forall|amplitude: i32, pulse_width: i32|
                        levels == Some((amplitude, pulse_width)) ==> acc == mix(
                            cur,
                            notes.take(j as int),
                            pulse_width as int,
                            amplitude as int,
                        ),
                    -(j as int) * 0x8000_0000 <= acc <= (j as int) * 0x8000_0000,
                    j == 0 ==> acc == 0,
                decreases notes.len() - j,
            {
                let note = active_notes[j];
                let ghost before = self.voices();
                let ghost before_osc = self.oscillators@;
                proof {
                    assert(!notes.take(j as int).contains(note)) by {
                        if notes.take(j as int).contains(note) {
                            let k = choose|k: int| 0 <= k < j && notes.take(j as int)[k] == note;
                            assert(notes[k] == notes[j as int]);
                        }
                    }
                    assert(before[note as int] == cur[note as int]);
                }
                let sample: i64 = match levels {
                    Some((amplitude, pulse_width)) => self.oscillators[note as usize].next_sample_with(
                        self.sample_rate,
                        amplitude,
                        pulse_width,
                    ),
                    None => self.oscillators[note as usize].next_sample(self.sample_rate),
                };
                proof {
                    let n = note as int;
                    assert(self.oscillators@ =~= before_osc.update(n, self.oscillators@[n]));
                    assert(self.oscillators@[n]@ == advance_voice(before[n], dd));
                    assert(self.voices() =~= before.update(n, advance_voice(before[n], dd)));
                    assert(self.voice_params() =~= params);
                    let v = before[note as int];
                    if levels is None {
                        let (w0, a0) = choose|w: i32, a: i32|
                            sample == square_level(v.phase, v.phase_den, w as int, a as int);
                        lemma_level_bound(v, w0 as int, a0);
                    } else {
                        let (a0, w0) = levels->0;
                        lemma_level_bound(v, w0 as int, a0);
                    }
                    let taken = notes.take(j as int + 1);
                    assert(taken.drop_last() =~= notes.take(j as int));
                    assert(taken.last() == note);
                    assert forall|i: int| 0 <= i < NOTE_COUNT implies #[trigger] taken.contains(i as u8) == (
                    notes.take(j as int).contains(i as u8) || i == note) by {
                        if notes.take(j as int).contains(i as u8) {
                            let k = choose|k: int| 0 <= k < j && notes.take(j as int)[k] == i as u8;
                            assert(taken[k] == i as u8);
                        }
                        if i == note {
                            assert(taken[j as int] == i as u8);
                        }
                        if taken.contains(i as u8) {
                            let k = choose|k: int| 0 <= k <= j && taken[k] == i as u8;
                            if k < j {
                                assert(notes.take(j as int)[k] == i as u8);
                            }
                        }
                    }
                    assert(self.voices() =~= Seq::new(
                        NOTE_COUNT as nat,
                        |i: int|
                            if taken.contains(i as u8) {
                                advance_voice(cur[i], dd)
                            } else {
                                cur[i]
                            },
                    ));
                }
                let ghost prev = acc;
                acc = acc + sample;
                proof {
                    let taken = notes.take(j as int + 1);
                    assert forall|amplitude: i32, pulse_width: i32|
                        levels == Some((amplitude, pulse_width)) implies acc == #[trigger] mix(
                        cur,
                        taken,
                        pulse_width as int,
                        amplitude as int,
                    ) by {
                        assert(prev == mix(cur, notes.take(j as int), pulse_width as int, amplitude as int));
                    }
                }
                j = j + 1;
            }
            proof {
                assert(notes.take(notes.len() as int) =~= notes);
                assert(self.voices() =~= voices_after(start, notes, dd, s as nat + 1));
            }
            samples.push(acc);
            s = s + 1;
        }
        samples
    }

    /// Renders one block with fixed amplitude and pulse width: sample `i` of every channel is the
    /// sum, over the voices of `active_notes`, of each voice's square-wave level after `i`
    /// samples; each of those voices then stands `num_samples` samples further on.
    pub fn process_with(
        &mut self,
        num_samples: usize,
        num_output_channels: usize,
        active_notes: Vec<u8>,
        amplitude: i32,
        pulse_width: i32,
    ) -> (r: Vec<Vec<i64>>)
        requires
            old(self).wf(),
            valid_notes(active_notes@),
        ensures
            final(self).wf(),
            final(self).rate() == old(self).rate(),
            final(self).voice_params() == old(self).voice_params(),
            final(self).voices() == voices_after(
                old(self).voices(),
                active_notes@,
                cycle_units(old(self).rate()),
                num_samples as nat,
            ),
            r@.len() == num_output_channels,
            forall|c: int| 0 <= c < num_output_channels ==> (#[trigger] r@[c])@.len() == num_samples,
            forall|c: int, i: int|
                0 <= c < num_output_channels && 0 <= i < num_samples ==> #[trigger] r@[c]@[i]
                    == block_sample(
                    old(self).voices(),
                    active_notes@,
                    cycle_units(old(self).rate()),
                    pulse_width as int,
                    amplitude as int,
                    i as nat,
                ),
    {
        let mono = self.render(num_samples, &active_notes, Some((amplitude, pulse_width)));
        spread(&mono, num_output_channels)
    }

    /// Renders one block, each voice reading amplitude and pulse width from the shared
    /// parameters on every sample. The same signal goes to every channel, and a block with no
    /// active note is silent.
    pub fn process(&mut self, num_samples: usize, num_output_channels: usize, active_notes: Vec<u8>) -> (r:
        Vec<Vec<i64>>)
        requires
            old(self).wf(),
            valid_notes(active_notes@),
        ensures
            final(self).wf(),
            final(self).rate() == old(self).rate(),
            final(self).voice_params() == old(self).voice_params(),
            final(self).voices() == voices_after(
                old(self).voices(),
                active_notes@,
                cycle_units(old(self).rate()),
                num_samples as nat,
            ),
            r@.len() == num_output_channels,
            forall|c: int| 0 <= c < num_output_channels ==> (#[trigger] r@[c])@.len() == num_samples,
            forall|c: int| 0 <= c < num_output_channels ==> (#[trigger] r@[c])@ == r@[0]@,
            active_notes@.len() == 0 ==> forall|c: int, i: int|
                0 <= c < num_output_channels && 0 <= i < num_samples ==> #[trigger] r@[c]@[i] == 0,
    {
        let mono = self.render(num_samples, &active_notes, None);
        spread(&mono, num_output_channels)
    }

    /// The sample rate in hertz.
    pub fn sample_rate(&self) -> (r: u32)
        ensures
            r == self.rate(),
    {
        self.sample_rate
    }

    /// The oscillator of note `note`.
    pub fn oscillator(&self, note: u8) -> (r: &SquareOscillator)
        requires
            self.wf(),
            note < NOTE_COUNT,
        ensures
            r@ == self.voices()[note as int],
            r.params() == self.voice_params()[note as int],
    {
        &self.oscillators[note as usize]
    }
}

/// `num_channels` copies of `mono`.
fn spread(mono: &Vec<i64>, num_channels: usize) -> (r: Vec<Vec<i64>>)
    ensures
        r@.len() == num_channels,
        forall|c: int| 0 <= c < num_channels ==> (#[trigger] r@[c])@ == mono@,
{
    let mut channels: Vec<Vec<i64>> = Vec::new();
    let mut c: usize = 0;
    while c < num_channels
        invariant
            c <= num_channels,
            channels@.len() == c,
            forall|k: int| 0 <= k < c ==> (#[trigger] channels@[k])@ == mono@,
        decreases num_channels - c,
    {
        let mut channel: Vec<i64> = Vec::new();
        let mut i: usize = 0;
        while i < mono.len()
            invariant
                i <= mono@.len(),
                channel@ == mono@.take(i as int),
            decreases mono@.len() - i,
        {
            channel.push(mono[i]);
            i = i + 1;
            proof {
                assert(channel@ =~= mono@.take(i as int));
            }
        }
        proof {
            assert(channel@ =~= mono@);
        }
        channels.push(channel);
        c = c + 1;
    }
    channels
}

} // verus!
