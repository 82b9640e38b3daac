use synth::process::pitch::phase_step;
use synth::process::wave::{get_wave_sample, Wave, WaveKind, WaveProperties};

const QUARTER: u32 = 0x4000_0000;
const HALF: u32 = 0x8000_0000;

#[test]
fn sine_at_the_quarters_of_a_cycle() {
    assert_eq!(get_wave_sample(WaveKind::Sine, 0, 0), 0);
    assert_eq!(get_wave_sample(WaveKind::Sine, QUARTER, 0), 65536);
    assert_eq!(get_wave_sample(WaveKind::Sine, HALF, 0), 0);
    assert_eq!(get_wave_sample(WaveKind::Sine, HALF + QUARTER, 0), -65536);
    assert_eq!(get_wave_sample(WaveKind::Sine, u32::MAX, 0), -3);
}

#[test]
fn sine_is_close_to_the_true_sine() {
    let mut phase: u64 = 0;
    while phase < 1 << 32 {
        let got = get_wave_sample(WaveKind::Sine, phase as u32, 0) as f64 / 65536.0;
        let want = (phase as f64 / 4294967296.0 * std::f64::consts::TAU).sin();
        assert!((got - want).abs() < 0.002, "phase {}: {} against {}", phase, got, want);
        phase += 1 << 20;
    }
}

#[test]
fn sine_exact_values() {
    assert_eq!(get_wave_sample(WaveKind::Sine, 0x2000_0000, 0), 46260);
    assert_eq!(get_wave_sample(WaveKind::Sine, 12345678, 0), 1201);
}

#[test]
fn triangle_runs_from_minus_one_up_to_one_and_back() {
    assert_eq!(get_wave_sample(WaveKind::Triangle, 0, 0), -65536);
    assert_eq!(get_wave_sample(WaveKind::Triangle, 0x2000_0000, 0), -32768);
    assert_eq!(get_wave_sample(WaveKind::Triangle, QUARTER, 0), 0);
    assert_eq!(get_wave_sample(WaveKind::Triangle, HALF, 0), 65536);
    assert_eq!(get_wave_sample(WaveKind::Triangle, HALF + QUARTER, 0), 0);
    assert_eq!(get_wave_sample(WaveKind::Triangle, u32::MAX, 0), -65536);
    assert_eq!(get_wave_sample(WaveKind::Triangle, 12345678, 0), -64783);
}

#[test]
fn saw_rises_to_one_and_jumps_to_minus_one() {
    assert_eq!(get_wave_sample(WaveKind::Saw, 0, 0), 0);
    assert_eq!(get_wave_sample(WaveKind::Saw, QUARTER, 0), 32768);
    assert_eq!(get_wave_sample(WaveKind::Saw, HALF - 1, 0), 65535);
    assert_eq!(get_wave_sample(WaveKind::Saw, HALF, 0), -65536);
    assert_eq!(get_wave_sample(WaveKind::Saw, HALF + QUARTER, 0), -32768);
    assert_eq!(get_wave_sample(WaveKind::Saw, u32::MAX, 0), 0);
    assert_eq!(get_wave_sample(WaveKind::Saw, 12345678, 0), 376);
}

fn square_at(phase: u32, pulse_width: u32) {
    let want = if (phase as u64) < (pulse_width as u64) << 16 { 65536 } else { -65536 };
    assert_eq!(get_wave_sample(WaveKind::Square, phase, pulse_width), want);
}

#[test]
fn square_is_one_below_the_pulse_width_and_minus_one_from_there() {
    for pulse_width in [0u32, 16384, 32768, 49152, 65536] {
        let mut phase: u64 = 0;
        while phase < 1 << 32 {
            square_at(phase as u32, pulse_width);
            phase += 1 << 22;
        }
        square_at(u32::MAX, pulse_width);
    }
}

#[test]
fn square_at_the_edges_of_the_pulse() {
    assert_eq!(get_wave_sample(WaveKind::Square, 0, 0), -65536);
    assert_eq!(get_wave_sample(WaveKind::Square, u32::MAX, 65536), 65536);
    assert_eq!(get_wave_sample(WaveKind::Square, QUARTER - 1, 16384), 65536);
    assert_eq!(get_wave_sample(WaveKind::Square, QUARTER, 16384), -65536);
    assert_eq!(get_wave_sample(WaveKind::Square, HALF - 1, 32768), 65536);
    assert_eq!(get_wave_sample(WaveKind::Square, HALF, 32768), -65536);
    assert_eq!(get_wave_sample(WaveKind::Square, HALF + QUARTER, 49152), -65536);
}

#[test]
fn wave_properties_default_is_a_sine_with_half_a_pulse() {
    assert_eq!(WaveProperties::default(), WaveProperties::new(WaveKind::Sine, 32768));
}

#[test]
fn wave_starts_at_phase_zero() {
    let wave = Wave::new(440 << 16, 48000);
    assert_eq!(wave, Wave { phase: 0, frequency: 440 << 16, sample_rate: 48000 });
}

#[test]
fn wave_returns_the_value_before_it_advances() {
    let mut wave = Wave::new(12000 << 16, 48000);
    let properties = WaveProperties::new(WaveKind::Saw, 0);
    // a quarter of a cycle per sample
    assert_eq!(wave.get_sample(&properties), 0);
    assert_eq!(wave.phase, QUARTER);
    assert_eq!(wave.get_sample(&properties), 32768);
    assert_eq!(wave.get_sample(&properties), -65536);
    assert_eq!(wave.get_sample(&properties), -32768);
    assert_eq!(wave.phase, 0);
}

#[test]
fn phase_wraps_around_at_the_end_of_a_cycle() {
    let mut wave = Wave { phase: 0xffff_ff00, frequency: 1 << 16, sample_rate: 1 << 16 };
    // one hertz at 65536 samples per second: 65536 phase units per sample
    assert_eq!(phase_step(wave.frequency, wave.sample_rate), 65536);
    wave.get_sample(&WaveProperties::default());
    assert_eq!(wave.phase, 0xff00);
}

#[test]
fn phase_comes_back_after_one_period() {
    // 480 Hz at 48 kHz: a period of 100 samples
    let mut wave = Wave::new(480 << 16, 48000);
    assert_eq!(phase_step(wave.frequency, wave.sample_rate), 42949672);
    let properties = WaveProperties::default();
    for _ in 0..100 {
        wave.get_sample(&properties);
    }
    // short of the start by the rounding of the phase step, less than one
    // unit per sample
    assert_eq!(wave.phase, 4294967200);
    let short = (1u64 << 32) - wave.phase as u64;
    assert!(short < 100);
}

#[test]
fn phase_comes_back_exactly_where_the_step_divides_the_cycle() {
    // 12 kHz at 48 kHz: four samples to the cycle
    let mut wave = Wave { phase: 777, frequency: 12000 << 16, sample_rate: 48000 };
    let properties = WaveProperties::default();
    for _ in 0..4 {
        wave.get_sample(&properties);
    }
    assert_eq!(wave.phase, 777);
}

#[test]
fn a_tone_above_the_sample_rate_wraps_around() {
    // 1.25 cycles per sample is a quarter of a cycle per sample
    assert_eq!(phase_step(60000 << 16, 48000), 0x4000_0000);
    assert_eq!(phase_step(0, 48000), 0);
}
