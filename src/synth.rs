use std::sync::Arc;
use vstd::prelude::*;

use crate::audio_engine::{valid_notes, voices_after, AudioEngine};
use crate::midi_input_processor::{apply_event, strictly_ascending, MidiInputProcessor, NOTE_COUNT};
use crate::parameters::{is_parameter_index, Parameters};
use crate::square_oscillator::{cycle_units, VoiceState};

verus! {

/// The audio core of the plug-in: MIDI messages update the set of held notes, and each block
/// is rendered from a snapshot of that set taken when the block starts.
pub struct Synth {
    audio_engine: AudioEngine,
    midi_input_processor: MidiInputProcessor,
    params: Arc<Parameters>,
}

/// Whether `notes` lists exactly the members of `active`.
pub open spec fn lists(notes: Seq<u8>, active: Set<u8>) -> bool {
    forall|n: u8| notes.contains(n) <==> active.contains(n)
}

impl Synth {
    /// The notes currently held.
    pub closed spec fn active(&self) -> Set<u8> {
        self.midi_input_processor.view()
    }

    /// The state of each voice, indexed by note identifier.
    pub closed spec fn voices(&self) -> Seq<VoiceState> {
        self.audio_engine.voices()
    }

    /// The sample rate in hertz.
    pub closed spec fn rate(&self) -> nat {
        self.audio_engine.rate()
    }

    /// The parameter store shared by the voices and the editor.
    pub closed spec fn shared(&self) -> Arc<Parameters> {
        self.params
    }

    /// The shared parameters that each voice reads, indexed by note identifier.
    pub closed spec fn voice_params(&self) -> Seq<Arc<Parameters>> {
        self.audio_engine.voice_params()
    }

    /// The engine's voices are tuned, in phase range and all read the shared store, and every
    /// held note is a valid note.
    pub closed spec fn wf(&self) -> bool {
        &&& self.audio_engine.wf()
        &&& self.midi_input_processor.wf()
        &&& forall|i: int| 0 <= i < NOTE_COUNT ==> #[trigger] self.voice_params()[i] == self.params
    }

    /// A synth with no note held and default parameters.
    pub fn new(sample_rate: u32) -> (r: Self)
        requires
            sample_rate > 0,
        ensures
            r.wf(),
            r.rate() == sample_rate,
            r.active() == Set::<u8>::empty(),
            forall|i: int| 0 <= i < NOTE_COUNT ==> #[trigger] r.voice_params()[i] == r.shared(),
    {
        let params = Arc::new(Parameters::new());
        Self {
            audio_engine: AudioEngine::with_sample_rate(params.clone(), sample_rate),
            midi_input_processor: MidiInputProcessor::new(),
            params,
        }
    }

    /// The parameters shared with the voices, for an editor to write into.
    pub fn parameters(&self) -> (r: Arc<Parameters>)
        ensures
            r == self.shared(),
    {
        self.params.clone()
    }

    /// Applies a MIDI message. A message whose note byte is not a 7-bit value is not valid MIDI
    /// and is ignored.
    pub fn process_midi_event(&mut self, event_data: [u8; 3])
        requires
            old(self).wf(),
        ensures
            final(self).wf(),
            final(self).rate() == old(self).rate(),
            final(self).shared() == old(self).shared(),
            final(self).voice_params() == old(self).voice_params(),
            final(self).voices() == old(self).voices(),
            final(self).active() == if event_data@[1] < NOTE_COUNT {
                apply_event(old(self).active(), event_data@)
            } else {
                old(self).active()
            },
    {
        if event_data[1] < NOTE_COUNT {
            self.midi_input_processor.process_midi_event(event_data);
        }
        proof {
            assert forall|i: int| 0 <= i < NOTE_COUNT implies #[trigger] self.voice_params()[i]
                == self.params by {
                assert(old(self).voice_params()[i] == old(self).params);
            }
        }
    }

    /// Renders one block from the notes held when it starts; the same signal goes to every
    /// channel, and the block is silent when no note is held.
    pub fn process(&mut self, num_samples: usize, num_output_channels: usize) -> (r: Vec<Vec<i64>>)
        requires
            old(self).wf(),
        ensures
            final(self).wf(),
            final(self).rate() == old(self).rate(),
            final(self).shared() == old(self).shared(),
            final(self).voice_params() == old(self).voice_params(),
            final(self).active() == old(self).active(),
            forall|notes: Seq<u8>|
                lists(notes, old(self).active()) ==> final(self).voices() == voices_after(
                    old(self).voices(),
                    notes,
                    cycle_units(old(self).rate()),
                    num_samples as nat,
                ),
            r@.len() == num_output_channels,
            forall|c: int| 0 <= c < num_output_channels ==> (#[trigger] r@[c])@.len() == num_samples,
            forall|c: int| 0 <= c < num_output_channels ==> (#[trigger] r@[c])@ == r@[0]@,
            old(self).active().is_empty() ==> forall|c: int, i: int|
                0 <= c < num_output_channels && 0 <= i < num_samples ==> #[trigger] r@[c]@[i] == 0,
    {
        let active_notes = self.midi_input_processor.get_active_notes();
        let ghost notes = active_notes@;
        proof {
            assert(valid_notes(notes)) by {
                assert forall|i: int, j: int| 0 <= i < notes.len() && 0 <= j < notes.len() && i != j
                    implies notes[i] != notes[j] by {
                    if i < j {
                        assert(notes[i] < notes[j]);
                    } else {
                        assert(notes[j] < notes[i]);
                    }
                }
            }
            if self.active().is_empty() && notes.len() > 0 {
                assert(notes.contains(notes[0]));
            }
        }
        let r = self.audio_engine.process(num_samples, num_output_channels, active_notes);
        proof {
            assert forall|i: int| 0 <= i < NOTE_COUNT implies #[trigger] self.voice_params()[i]
                == self.params by {
                assert(old(self).voice_params()[i] == old(self).params);
            }
        }
        proof {
            assert forall|other: Seq<u8>| lists(other, old(self).active()) implies voices_after(
                old(self).voices(),
                notes,
                cycle_units(old(self).rate()),
                num_samples as nat,
            ) == voices_after(
                old(self).voices(),
                other,
                cycle_units(old(self).rate()),
                num_samples as nat,
            ) by {
                assert(voices_after(
                    old(self).voices(),
                    notes,
                    cycle_units(old(self).rate()),
                    num_samples as nat,
                ) =~= voices_after(
                    old(self).voices(),
                    other,
                    cycle_units(old(self).rate()),
                    num_samples as nat,
                ));
            }
        }
        r
    }

    /// Reads a parameter: 0 amplitude, 1 pulse width; any other index reads 0.
    pub fn get_parameter(&self, index: i32) -> (r: i32)
        ensures
            !is_parameter_index(index) ==> r == 0,
    {
        match self.params.parameter(index) {
            Some(store) => store.get(),
            None => 0,
        }
    }

    /// Writes a parameter: 0 amplitude, 1 pulse width; any other index is ignored.
    pub fn set_parameter(&self, index: i32, value: i32) {
        match self.params.parameter(index) {
            Some(store) => store.set(value),
            None => {},
        }
    }

    /// The notes currently held, in ascending order.
    pub fn get_active_notes(&self) -> (r: Vec<u8>)
        requires
            self.wf(),
        ensures
            strictly_ascending(r@),
            lists(r@, self.active()),
    {
        self.midi_input_processor.get_active_notes()
    }
}

} // verus!
