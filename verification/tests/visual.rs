use synth::fixed::ONE;
use synth::process::visual_data::{SynthData, VisualData};

fn bridge() -> (SynthData, triple_buffer::Output<VisualData>) {
    let (input, output) = triple_buffer::TripleBuffer::new(&VisualData::default()).split();
    (SynthData::new(input), output)
}

#[test]
fn default_data_is_silence() {
    let data = VisualData::default();
    assert_eq!(data.peak_meter, 0);
    assert!(data.samples.is_empty());
}

#[test]
fn a_louder_sample_sets_the_peak() {
    let mut data = VisualData::default();
    data.push(100, 32768);
    assert_eq!(data.peak_meter, 100);
    data.push(-300, 32768);
    assert_eq!(data.peak_meter, 300);
    data.push(i64::MIN, 32768);
    assert_eq!(data.peak_meter, 1 << 63);
    data.push(i64::MAX, 0);
    assert_eq!(data.peak_meter, i64::MAX as u64);
}

#[test]
fn a_quieter_sample_lets_the_peak_decay() {
    let mut data = VisualData::default();
    data.push(1000, 49152);
    // 1000 * 0.75 + 200 * 0.25
    data.push(200, 49152);
    assert_eq!(data.peak_meter, 800);
    // 800 * 0.75 + 0 * 0.25
    data.push(0, 49152);
    assert_eq!(data.peak_meter, 600);
    // rounded down: 600 * 0.75 + 1 * 0.25 = 450.25
    data.push(-1, 49152);
    assert_eq!(data.peak_meter, 450);
}

#[test]
fn a_weight_of_one_holds_the_peak_and_a_weight_of_zero_follows_the_sample() {
    let mut data = VisualData::default();
    data.push(1000, ONE);
    data.push(10, ONE);
    assert_eq!(data.peak_meter, 1000);
    data.push(10, 0);
    assert_eq!(data.peak_meter, 10);
}

#[test]
fn the_peak_decays_without_overflow() {
    let mut data = VisualData::default();
    data.push(i64::MIN, ONE);
    data.push(i64::MAX, ONE);
    assert_eq!(data.peak_meter, 1 << 63);
    data.push(0, 32768);
    assert_eq!(data.peak_meter, 1 << 62);
}

#[test]
fn the_window_keeps_the_latest_ten_thousand_samples() {
    let mut data = VisualData::default();
    for sample in 0..10_000i64 {
        data.push(sample, ONE);
    }
    assert_eq!(data.samples.len(), 10_000);
    assert_eq!(data.samples[0], 0);
    data.push(10_000, ONE);
    assert_eq!(data.samples.len(), 10_000);
    assert_eq!(data.samples[0], 1);
    assert_eq!(data.samples[9_999], 10_000);
    for sample in 10_001..25_000i64 {
        data.push(sample, ONE);
    }
    assert_eq!(data.samples.len(), 10_000);
    assert_eq!(data.samples, (15_000..25_000i64).collect::<Vec<i64>>());
}

#[test]
fn a_window_that_is_too_long_is_cut_to_size() {
    let mut data = VisualData { peak_meter: 0, samples: (0..10_005i64).collect() };
    data.push(-1, ONE);
    assert_eq!(data.samples.len(), 10_000);
    assert_eq!(data.samples[0], 6);
    assert_eq!(data.samples[9_998], 10_004);
    assert_eq!(data.samples[9_999], -1);
}

#[test]
fn clone_copies_peak_and_window() {
    let mut data = VisualData::default();
    data.push(5, ONE);
    data.push(-7, ONE);
    let copy = data.clone();
    data.push(9, ONE);
    assert_eq!(copy.peak_meter, 7);
    assert_eq!(copy.samples, vec![5, -7]);
}

#[test]
fn a_new_bridge_publishes_silence() {
    let (data, mut output) = bridge();
    let seen = output.read();
    assert_eq!(seen.peak_meter, 0);
    assert!(seen.samples.is_empty());
    assert_eq!(data.snapshot().peak_meter, 0);
}

#[test]
fn the_peak_of_a_new_bridge_does_not_decay() {
    let (mut data, _output) = bridge();
    data.set_visual_data(500);
    data.set_visual_data(0);
    assert_eq!(data.snapshot().peak_meter, 500);
}

#[test]
fn the_reader_sees_the_latest_push() {
    let (mut data, mut output) = bridge();
    data.set_peak_meter_decay_weight(32768);
    for sample in 1..=5i64 {
        data.set_visual_data(sample * 100);
        let seen = output.read();
        assert_eq!(seen.peak_meter, sample as u64 * 100);
        assert_eq!(seen.samples.len(), sample as usize);
        assert_eq!(*seen.samples.last().unwrap(), sample * 100);
    }
    // many pushes between two reads: the last one is seen, whole
    for sample in 6..=50i64 {
        data.set_visual_data(-sample);
    }
    let seen = output.read().clone();
    let own = data.snapshot();
    assert_eq!(seen.peak_meter, own.peak_meter);
    assert_eq!(seen.samples, own.samples);
    assert_eq!(seen.samples.len(), 50);
    assert_eq!(seen.samples[49], -50);
    // a read without a push in between sees the same
    assert_eq!(output.read().samples, own.samples);
}

#[test]
fn the_decay_weight_is_taken_over() {
    let (mut data, _output) = bridge();
    data.set_peak_meter_decay_weight(49152);
    data.set_visual_data(1000);
    data.set_visual_data(200);
    assert_eq!(data.snapshot().peak_meter, 800);
    assert_eq!(data.snapshot().samples, vec![1000, 200]);
}
