use gui_vst::midi_input_processor::MidiInputProcessor;

#[test]
fn new_tracker_has_no_active_notes() {
    let tracker = MidiInputProcessor::new();
    assert_eq!(tracker.get_active_notes(), Vec::<u8>::new());
}

#[test]
fn note_on_and_off_update_active_set_in_ascending_order() {
    let mut tracker = MidiInputProcessor::new();
    tracker.process_midi_event([144, 67, 100]);
    tracker.process_midi_event([144, 60, 100]);
    tracker.process_midi_event([144, 64, 90]);
    assert_eq!(tracker.get_active_notes(), vec![60, 64, 67]);
    tracker.process_midi_event([128, 64, 0]);
    assert_eq!(tracker.get_active_notes(), vec![60, 67]);
}

#[test]
fn repeated_note_on_is_idempotent() {
    let mut once = MidiInputProcessor::new();
    once.process_midi_event([144, 60, 100]);
    let mut twice = MidiInputProcessor::new();
    twice.process_midi_event([144, 60, 100]);
    twice.process_midi_event([144, 60, 100]);
    assert_eq!(once.get_active_notes(), twice.get_active_notes());
    assert_eq!(twice.get_active_notes(), vec![60]);
}

#[test]
fn note_off_for_inactive_note_is_a_no_op() {
    let mut tracker = MidiInputProcessor::new();
    tracker.process_midi_event([144, 60, 100]);
    tracker.process_midi_event([144, 72, 100]);
    tracker.process_midi_event([128, 61, 0]);
    assert_eq!(tracker.get_active_notes(), vec![60, 72]);
}

#[test]
fn other_status_bytes_are_ignored() {
    let mut tracker = MidiInputProcessor::new();
    tracker.process_midi_event([144, 60, 100]);
    tracker.process_midi_event([176, 7, 127]);
    tracker.process_midi_event([145, 62, 100]);
    tracker.process_midi_event([129, 60, 0]);
    assert_eq!(tracker.get_active_notes(), vec![60]);
}

#[test]
fn extreme_note_identifiers_are_tracked() {
    let mut tracker = MidiInputProcessor::new();
    tracker.process_midi_event([144, 127, 1]);
    tracker.process_midi_event([144, 0, 1]);
    assert_eq!(tracker.get_active_notes(), vec![0, 127]);
}
