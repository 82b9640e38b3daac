use synth::fixed::ONE;
use synth::params::envelope_target::{EnvelopeTargets, Target};
use synth::process::envelope::{Adsr, EnvelopeProperties};
use synth::process::note::OscillatorProperties;
use synth::process::notes::NoteEvent;
use synth::process::visual_data::VisualData;
use synth::process::wave::WaveKind;
use synth::utils::cache::ParamCache;
use synth::Synth;

fn synth() -> (Synth, triple_buffer::Output<VisualData>) {
    let (input, output) = triple_buffer::TripleBuffer::new(&VisualData::default()).split();
    let mut synth = Synth::new(input);
    synth.initialize(48000, 32768);
    (synth, output)
}

fn square_cache() -> ParamCache {
    let mut cache = ParamCache::default();
    cache.oscillator_properties[0] = OscillatorProperties::new(WaveKind::Square, ONE, ONE, true, 0, 0);
    for i in 1..4 {
        cache.oscillator_properties[i] = OscillatorProperties::new(WaveKind::Sine, 0, ONE, false, 0, 0);
    }
    cache.envelope_properties[0] = EnvelopeProperties::new(
        Adsr::new(0, 0, ONE, 655),
        EnvelopeTargets::with_target(Target::AllOscillators),
    );
    cache
}

#[test]
fn a_frame_without_notes_is_silent() {
    let (mut synth, _output) = synth();
    assert_eq!(synth.process(&ParamCache::default(), &Vec::new(), ONE, false), 0);
}

#[test]
fn a_frame_applies_the_events_before_it_takes_the_sample() {
    let (mut synth, _output) = synth();
    let cache = square_cache();
    let events = vec![NoteEvent::NoteOn { note: 60, velocity: ONE }];
    assert_eq!(synth.process(&cache, &events, ONE, false), 65536);
    assert_eq!(synth.process(&cache, &Vec::new(), ONE, false), 65536);
}

#[test]
fn a_frame_applies_the_events_in_their_order() {
    let (mut synth, _output) = synth();
    let cache = square_cache();
    synth.process(&cache, &vec![NoteEvent::NoteOn { note: 60, velocity: ONE }], ONE, false);
    // off then on: the old voice is released, a new one is held
    let events =
        vec![NoteEvent::NoteOff { note: 60 }, NoteEvent::NoteOn { note: 60, velocity: 32768 }];
    assert_eq!(synth.process(&cache, &events, ONE, false), 65536 + 32768);
    // on then off: nothing is held. The first voice is one sample into its
    // release, the second starts its release, and the third, released
    // before its first sample, starts its release from the sustain level.
    let events =
        vec![NoteEvent::NoteOn { note: 60, velocity: ONE }, NoteEvent::NoteOff { note: 60 }];
    assert_eq!(synth.process(&cache, &events, ONE, false), 65400 + 32768 + 65536);
    let mut frames = 0;
    while synth.process(&cache, &Vec::new(), ONE, false) != 0 {
        frames += 1;
    }
    // 655 * 48000 / 65536 = 479.7 samples of release
    assert_eq!(frames, 479);
}

#[test]
fn the_master_volume_scales_the_mix() {
    let (mut synth, _output) = synth();
    let cache = square_cache();
    let events = vec![NoteEvent::NoteOn { note: 60, velocity: ONE }];
    assert_eq!(synth.process(&cache, &events, 16384, false), 16384);
    assert_eq!(synth.process(&cache, &Vec::new(), 0, false), 0);
    assert_eq!(synth.process(&cache, &Vec::new(), 3 * ONE, false), 3 * 65536);
}

#[test]
fn the_sample_is_shown_only_while_the_editor_is_open() {
    let (mut synth, mut output) = synth();
    let cache = square_cache();
    let events = vec![NoteEvent::NoteOn { note: 60, velocity: ONE }];
    synth.process(&cache, &events, ONE, false);
    assert!(output.read().samples.is_empty());
    synth.process(&cache, &Vec::new(), 32768, true);
    synth.process(&cache, &vec![NoteEvent::NoteOff { note: 60 }], 32768, true);
    let seen = output.read();
    assert_eq!(seen.samples, vec![32768, 32768]);
    assert_eq!(seen.peak_meter, 32768);
}

#[test]
fn a_new_synth_runs_at_one_sample_per_second() {
    let (input, _output) = triple_buffer::TripleBuffer::new(&VisualData::default()).split();
    let mut synth = Synth::new(input);
    let cache = square_cache();
    let events = vec![NoteEvent::NoteOn { note: 60, velocity: ONE }];
    assert_eq!(synth.process(&cache, &events, ONE, false), 65536);
    // at one sample per second a release of 0.01 s is over with the next sample
    assert_eq!(synth.process(&cache, &vec![NoteEvent::NoteOff { note: 60 }], ONE, false), 65536);
    assert_eq!(synth.process(&cache, &Vec::new(), ONE, false), 0);
}
