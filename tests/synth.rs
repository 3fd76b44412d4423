use gui_vst::parameters::PARAM_ONE;
use gui_vst::synth::Synth;

#[test]
fn held_note_sounds_until_released() {
    let mut synth = Synth::new(44100);
    assert!(synth.process(8, 2).iter().all(|c| c.iter().all(|s| *s == 0)));
    synth.process_midi_event([144, 69, 100]);
    assert_eq!(synth.get_active_notes(), vec![69]);
    let out = synth.process(4, 2);
    assert_eq!(out[0], vec![-300_000; 4]);
    assert_eq!(out[1], out[0]);
    synth.process_midi_event([128, 69, 0]);
    let out = synth.process(4, 2);
    assert_eq!(out, vec![vec![0; 4], vec![0; 4]]);
}

#[test]
fn invalid_note_bytes_are_ignored() {
    let mut synth = Synth::new(44100);
    synth.process_midi_event([144, 200, 100]);
    synth.process_midi_event([144, 128, 100]);
    assert_eq!(synth.get_active_notes(), Vec::<u8>::new());
}

#[test]
fn parameter_changes_reach_the_voices() {
    let mut synth = Synth::new(44100);
    synth.set_parameter(0, PARAM_ONE);
    assert_eq!(synth.get_parameter(0), PARAM_ONE);
    synth.parameters().pulse_width.set(PARAM_ONE);
    synth.process_midi_event([144, 60, 100]);
    let out = synth.process(32, 1);
    assert!(out[0].iter().all(|s| *s == -1_000_000));
    assert_eq!(synth.get_parameter(5), 0);
}

#[test]
fn editor_and_voices_share_one_store() {
    let mut synth = Synth::new(44100);
    let editor_view = synth.parameters();
    assert!(std::sync::Arc::ptr_eq(&editor_view, &synth.parameters()));
    editor_view.amplitude.set(0);
    synth.process_midi_event([144, 69, 100]);
    let out = synth.process(64, 2);
    assert!(out.iter().all(|c| c.iter().all(|s| *s == 0)));
    synth.set_parameter(0, 500_000);
    assert_eq!(editor_view.amplitude.get(), 500_000);
    assert_ne!(synth.process(1, 1)[0][0], 0);
}
