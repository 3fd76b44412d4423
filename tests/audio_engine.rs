use std::sync::Arc;

use gui_vst::audio_engine::{AudioEngine, DEFAULT_SAMPLE_RATE};
use gui_vst::parameters::{Parameters, PARAM_ONE};

fn engine(amplitude: i32, pulse_width: i32) -> (AudioEngine, Arc<Parameters>) {
    let params = Arc::new(Parameters::new());
    params.amplitude.set(amplitude);
    params.pulse_width.set(pulse_width);
    (AudioEngine::with_sample_rate(params.clone(), 44100), params)
}

#[test]
fn new_engine_runs_at_default_rate_and_is_tuned() {
    let engine = AudioEngine::new(Arc::new(Parameters::new()));
    assert_eq!(engine.sample_rate(), DEFAULT_SAMPLE_RATE);
    assert_eq!(engine.oscillator(69).frequency(), 440_000_000_000);
    assert_eq!(engine.oscillator(81).frequency(), 880_000_000_000);
    assert_eq!(engine.oscillator(60).frequency(), 261_625_565_301);
    assert_eq!(engine.oscillator(0).phase().0, 0);
}

#[test]
fn square_wave_at_440_hz_has_half_duty_cycle() {
    let (mut engine, _params) = engine(PARAM_ONE, PARAM_ONE / 2);
    let out = engine.process(102, 2, vec![69]);
    assert_eq!(out.len(), 2);
    assert_eq!(out[0], out[1]);
    let mono = &out[0];
    assert_eq!(mono.len(), 102);
    for (i, s) in mono.iter().enumerate() {
        if i <= 50 || i == 101 {
            assert_eq!(*s, -1_000_000, "sample {}", i);
        } else {
            assert_eq!(*s, 1_000_000, "sample {}", i);
        }
    }
}

#[test]
fn fixed_level_rendering_matches_live_rendering() {
    let (mut live, _params) = engine(PARAM_ONE, PARAM_ONE / 2);
    let (mut fixed, _other) = engine(0, 0);
    let a = live.process(300, 1, vec![57, 69, 76]);
    let b = fixed.process_with(300, 1, vec![57, 69, 76], PARAM_ONE, PARAM_ONE / 2);
    assert_eq!(a, b);
}

#[test]
fn silence_when_no_note_is_active() {
    let (mut engine, _params) = engine(PARAM_ONE, PARAM_ONE / 2);
    for &(samples, channels) in &[(0usize, 0usize), (1, 1), (64, 2), (513, 6)] {
        let out = engine.process(samples, channels, vec![]);
        assert_eq!(out.len(), channels);
        for channel in &out {
            assert_eq!(channel.len(), samples);
            assert!(channel.iter().all(|s| *s == 0));
        }
    }
}

#[test]
fn mixing_does_not_depend_on_note_order() {
    let (mut first, _p1) = engine(PARAM_ONE, PARAM_ONE / 2);
    let (mut second, _p2) = engine(PARAM_ONE, PARAM_ONE / 2);
    for _ in 0..3 {
        let a = first.process(256, 2, vec![60, 64, 67]);
        let b = second.process(256, 2, vec![67, 60, 64]);
        assert_eq!(a, b);
    }
    let a = first.process_with(256, 1, vec![48, 72], 700_000, 300_000);
    let b = second.process_with(256, 1, vec![72, 48], 700_000, 300_000);
    assert_eq!(a, b);
}

#[test]
fn voices_sum_into_one_signal() {
    let (mut engine, _params) = engine(PARAM_ONE, PARAM_ONE / 2);
    let out = engine.process_with(1, 1, vec![60, 64, 67], 200_000, PARAM_ONE / 2);
    assert_eq!(out, vec![vec![-600_000]]);
}

#[test]
fn all_notes_at_full_amplitude() {
    let (mut engine, _params) = engine(i32::MAX, PARAM_ONE / 2);
    let notes: Vec<u8> = (0..128).collect();
    let out = engine.process(4, 1, notes);
    assert_eq!(out[0][0], -128 * i32::MAX as i64);
}

#[test]
fn only_active_voices_advance() {
    let (mut engine, _params) = engine(PARAM_ONE, PARAM_ONE / 2);
    engine.process(10, 1, vec![69]);
    assert_eq!(engine.oscillator(69).phase(), (4_400_000_000_000, 44_100_000_000_000));
    assert_eq!(engine.oscillator(70).phase(), (0, 1));
}

#[test]
fn zero_amplitude_gives_silence_with_notes_held() {
    let (mut engine, params) = engine(PARAM_ONE, PARAM_ONE / 2);
    let loud = engine.process(16, 1, vec![69]);
    assert!(loud[0].iter().all(|s| *s != 0));
    params.amplitude.set(0);
    let quiet = engine.process(256, 2, vec![60, 69]);
    assert!(quiet.iter().all(|c| c.iter().all(|s| *s == 0)));
}
