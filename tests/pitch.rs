use gui_vst::pitch::midi_pitch_to_freq;

#[test]
fn concert_a_is_exactly_440_hz() {
    assert_eq!(midi_pitch_to_freq(69), 440_000_000_000);
}

#[test]
fn a5_is_exactly_880_hz() {
    assert_eq!(midi_pitch_to_freq(81), 880_000_000_000);
}

#[test]
fn a3_is_exactly_220_hz() {
    assert_eq!(midi_pitch_to_freq(57), 220_000_000_000);
}

#[test]
fn middle_c_is_about_261_626_hz() {
    let f = midi_pitch_to_freq(60);
    assert_eq!(f, 261_625_565_301);
    assert!((f as f64 / 1e9 - 261.6255653005986).abs() < 1e-9);
}

#[test]
fn lowest_and_highest_notes() {
    assert_eq!(midi_pitch_to_freq(0), 8_175_798_916);
    assert_eq!(midi_pitch_to_freq(127), 12_543_853_951_416);
}

#[test]
fn every_note_is_the_nearest_nanohertz() {
    for n in 0u8..128 {
        let exact = 440e9 * 2f64.powf((n as f64 - 69.0) / 12.0);
        let got = midi_pitch_to_freq(n) as f64;
        assert!((got - exact).abs() <= 0.501, "note {}", n);
    }
}

#[test]
fn octaves_double_the_frequency_to_within_a_nanohertz() {
    for n in 0u8..116 {
        let twice = 2 * midi_pitch_to_freq(n) as i64;
        assert!((midi_pitch_to_freq(n + 12) as i64 - twice).abs() <= 1, "note {}", n);
    }
    for n in (9u8..128).step_by(12) {
        assert_eq!(midi_pitch_to_freq(n + 12), 2 * midi_pitch_to_freq(n));
    }
}

#[test]
fn byte_values_above_127_extend_the_scale() {
    assert_eq!(midi_pitch_to_freq(255), 20_390_018_005_210_294);
}
