use std::collections::BTreeSet;
use vstd::prelude::*;

verus! {

broadcast use {vstd::std_specs::btree::group_btree_axioms, vstd::laws_cmp::group_laws_cmp};

/// MIDI status byte of a note-off message on channel 1.
pub const NOTE_OFF: u8 = 128;

/// MIDI status byte of a note-on message on channel 1.
pub const NOTE_ON: u8 = 144;

/// Number of distinct MIDI note identifiers (0 through 127).
pub const NOTE_COUNT: u8 = 128;

/// Tracks which MIDI notes are currently held down.
pub struct MidiInputProcessor {
    notes: BTreeSet<u8>,
}

/// A sequence that is strictly increasing, hence free of duplicates.
pub open spec fn strictly_ascending(s: Seq<u8>) -> bool {
    forall|i: int, j: int| 0 <= i < j < s.len() ==> s[i] < s[j]
}

/// The active set after one three-byte MIDI message has been applied.
pub open spec fn apply_event(notes: Set<u8>, event: Seq<u8>) -> Set<u8> {
    if event[0] == NOTE_ON {
        notes.insert(event[1])
    } else if event[0] == NOTE_OFF {
        notes.remove(event[1])
    } else {
        notes
    }
}

/// A second note-on for the same note, whatever its velocity, leaves the active set as the
/// first one left it: the old set with the note added, once.
pub proof fn lemma_note_on_idempotent(notes: Set<u8>, note: u8, velocity1: u8, velocity2: u8)
    ensures
        apply_event(apply_event(notes, seq![NOTE_ON, note, velocity1]), seq![NOTE_ON, note, velocity2])
            == apply_event(notes, seq![NOTE_ON, note, velocity1]),
        apply_event(notes, seq![NOTE_ON, note, velocity1]) == notes.insert(note),
{
    assert(notes.insert(note).insert(note) =~= notes.insert(note));
}

/// A note-off for a note that is not active changes nothing: every other active note stays.
pub proof fn lemma_note_off_inactive(notes: Set<u8>, note: u8, velocity: u8)
    requires
        !notes.contains(note),
    ensures
        apply_event(notes, seq![NOTE_OFF, note, velocity]) == notes,
{
    assert(notes.remove(note) =~= notes);
}

impl MidiInputProcessor {
    /// The set of active note identifiers.
    pub closed spec fn view(&self) -> Set<u8> {
        self.notes@
    }

    /// Every active note is a valid MIDI note identifier.
    pub open spec fn wf(&self) -> bool {
        forall|n: u8| self.view().contains(n) ==> n < NOTE_COUNT
    }

    pub fn new() -> (r: Self)
        ensures
            r.view() == Set::<u8>::empty(),
            r.wf(),
    {
        Self { notes: BTreeSet::new() }
    }

    /// Applies a note-on (status 144) or note-off (status 128) message; any other
    /// status byte leaves the active set as it is.
    pub fn process_midi_event(&mut self, event_data: [u8; 3])
        requires
            old(self).wf(),
            event_data@[0] == NOTE_ON ==> event_data@[1] < NOTE_COUNT,
        ensures
            final(self).wf(),
            final(self).view() == apply_event(old(self).view(), event_data@),
    {
        let status = event_data[0];
        if status == NOTE_OFF {
            self.note_off(event_data[1]);
        } else if status == NOTE_ON {
            self.note_on(event_data[1]);
        }
    }

    fn note_on(&mut self, index: u8)
        requires
            old(self).wf(),
            index < NOTE_COUNT,
        ensures
            final(self).wf(),
            final(self).view() == old(self).view().insert(index),
    {
        self.notes.insert(index);
    }

    fn note_off(&mut self, index: u8)
        requires
            old(self).wf(),
        ensures
            final(self).wf(),
            final(self).view() == old(self).view().remove(index),
    {
        self.notes.remove(&index);
    }

    /// A snapshot of the active notes in ascending order.
    pub fn get_active_notes(&self) -> (r: Vec<u8>)
        requires
            self.wf(),
        ensures
            strictly_ascending(r@),
            forall|n: u8| r@.contains(n) <==> self.view().contains(n),
            forall|i: int| 0 <= i < r@.len() ==> r@[i] < NOTE_COUNT,
    {
        let mut active_notes: Vec<u8> = Vec::new();
        let mut note: u8 = 0;
        while note < NOTE_COUNT
            invariant
                self.wf(),
                note <= NOTE_COUNT,
                strictly_ascending(active_notes@),
                forall|i: int| 0 <= i < active_notes@.len() ==> active_notes@[i] < note,
                forall|n: u8| n < note ==> (active_notes@.contains(n) <==> self.view().contains(n)),
            decreases NOTE_COUNT - note,
        {
            let ghost before = active_notes@;
            if self.notes.contains(&note) {
                active_notes.push(note);
                assert(active_notes@[before.len() as int] == note);
            }
            assert forall|n: u8| n < note + 1 implies (active_notes@.contains(n)
                <==> self.view().contains(n)) by {
                if n < note && active_notes@.contains(n) {
                    let i = choose|i: int| 0 <= i < active_notes@.len() && active_notes@[i] == n;
                    assert(i < before.len());
                    assert(before[i] == n);
                }
                if n < note && before.contains(n) {
                    let i = choose|i: int| 0 <= i < before.len() && before[i] == n;
                    assert(active_notes@[i] == n);
                }
            }
            note = note + 1;
        }
        active_notes
    }
}

} // verus!
