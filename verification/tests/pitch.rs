use synth::process::pitch::midi_note_to_freq;

fn hertz(midi_note: u8, transpose: i32, detune: i32) -> f64 {
    midi_note_to_freq(midi_note, transpose, detune) as f64 / 65536.0
}

fn equal_temperament(pitch: f64) -> f64 {
    440.0 * 2f64.powf((pitch - 69.0) / 12.0)
}

#[test]
fn concert_pitch_is_440_hertz() {
    assert_eq!(midi_note_to_freq(69, 0, 0), 440 << 16);
}

#[test]
fn middle_c() {
    assert_eq!(midi_note_to_freq(60, 0, 0), 17145893);
    assert!((hertz(60, 0, 0) - 261.6256).abs() < 0.001);
}

#[test]
fn whole_semitones_follow_equal_temperament() {
    for note in 0..=127u8 {
        let want = equal_temperament(note as f64);
        let got = hertz(note, 0, 0);
        assert!((got - want).abs() <= want * 1e-6 + 0.001, "note {}: {} against {}", note, got, want);
    }
}

#[test]
fn an_octave_of_transpose_doubles_the_frequency() {
    assert_eq!(midi_note_to_freq(69, 12, 0), 880 << 16);
    assert_eq!(midi_note_to_freq(69, -12, 0), 220 << 16);
    assert_eq!(midi_note_to_freq(57, 12, 0), midi_note_to_freq(69, 0, 0));
}

#[test]
fn a_hundred_cents_are_one_semitone() {
    assert_eq!(midi_note_to_freq(69, 0, 100 << 16), midi_note_to_freq(70, 0, 0));
    assert_eq!(midi_note_to_freq(69, 0, -(100 << 16)), midi_note_to_freq(68, 0, 0));
    assert_eq!(midi_note_to_freq(69, 0, 100 << 16), 30550508);
}

#[test]
fn detune_between_semitones_is_interpolated() {
    assert_eq!(midi_note_to_freq(69, 0, 50 << 16), 29693174);
    assert_eq!(midi_note_to_freq(69, 0, -(50 << 16)), 28026624);
    for cents in [-99i32, -50, -1, 1, 25, 50, 75, 99] {
        let want = equal_temperament(69.0 + cents as f64 / 100.0);
        let got = hertz(69, 0, cents << 16);
        // a straight line between two semitones is off by less than a cent
        assert!((got - want).abs() < want * 0.0005, "{} cents: {} against {}", cents, got, want);
    }
}

#[test]
fn low_pitches_fade_to_zero_hertz() {
    assert_eq!(midi_note_to_freq(0, -12, 0), 267904);
    assert_eq!(midi_note_to_freq(0, -400, 0), 0);
    assert_eq!(midi_note_to_freq(0, i32::MIN, i32::MIN), 0);
}

#[test]
fn high_pitches_stop_at_the_top_semitone() {
    assert_eq!(midi_note_to_freq(127, 12, 0), 1644148025);
    assert_eq!(midi_note_to_freq(143, 0, 0), 2071496706);
    assert_eq!(midi_note_to_freq(200, 100, 0), 2071496706);
    assert_eq!(midi_note_to_freq(255, i32::MAX, i32::MAX), 2071496706);
}
