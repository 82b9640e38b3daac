//! Signal-generation core of a polyphonic synthesizer, in fixed-point
//! arithmetic.
//!
//! Every real-valued quantity is a Q16.16 number: the integer `v` stands for
//! `v / 65536`. Time is counted in samples, oscillator phase in 2^-32 parts of
//! a cycle.

use vstd::prelude::*;
use triple_buffer::Input;
use crate::fixed::{clamped, scale, scaled, ONE};
use crate::process::notes::{event_ok, handle_all, NoteEvent, NoteStorage, StorageModel, POLYPHONY};
use crate::process::visual_data::{SynthData, SynthDataModel, VisualData};
use crate::utils::cache::{default_settings, CacheModel, ParamCache};
use crate::utils::fixed_map::Voice;

pub mod fixed;
pub mod gui;
pub mod params;
pub mod process;
pub mod utils;

verus! {

/// Number of oscillator layers that make up one voice.
pub const OSCILLATOR_AMOUNT: usize = 4;

/// Number of envelope slots.
pub const ENVELOPE_AMOUNT: usize = 4;

/// The synthesizer: the voices, and the bridge to the user interface.
pub struct Synth {
    sample_rate: u32,
    notes: NoteStorage,
    data: SynthData,
}

/// What the synthesizer holds.
#[verifier::ext_equal]
pub struct SynthModel {
    /// Samples per second.
    pub sample_rate: u32,
    /// The voices and the settings that they read.
    pub notes: StorageModel,
    /// What the user interface was shown last.
    pub data: SynthDataModel,
}

/// The voices as they stand when the frame's sample is taken: the settings of
/// the cache are in place and the events are applied.
pub open spec fn prepared(
    notes: StorageModel,
    cache: CacheModel,
    events: Seq<NoteEvent>,
    sample_rate: u32,
) -> StorageModel {
    handle_all(notes.updated(cache), events, sample_rate)
}

/// The sample of a frame: the mix of all notes times the master volume.
pub open spec fn frame_sample(notes: StorageModel, volume: u32) -> int {
    clamped(scaled(clamped(notes.mix()), volume as int))
}

impl View for Synth {
    type V = SynthModel;

    closed spec fn view(&self) -> SynthModel {
        SynthModel { sample_rate: self.sample_rate, notes: self.notes@, data: self.data@ }
    }
}

impl Synth {
    /// The table of held voices has its full capacity, and the bridge works
    /// on what it published last.
    pub closed spec fn complete(&self) -> bool {
        &&& self.notes.capacity() == POLYPHONY
        &&& self.data.in_step()
    }

    /// The sample rate is not zero, and voices and bridge are well-formed.
    pub open spec fn wf(&self) -> bool {
        &&& self.complete()
        &&& self@.sample_rate > 0
        &&& self@.notes.wf()
        &&& 0 <= self@.data.decay_weight <= ONE
    }

    /// A synthesizer without voices at one sample per second, on the
    /// producer's end of a triple buffer.
    pub fn new(data_input: Input<VisualData>) -> (synth: Synth)
        ensures
            synth.wf(),
            synth@.sample_rate == 1,
            synth@.notes.held == Seq::<(u8, Voice)>::empty(),
            synth@.notes.released == Seq::<Voice>::empty(),
            synth@.notes.oscillators == default_settings().oscillators,
            synth@.notes.envelopes == default_settings().envelopes,
            synth@.notes.dropped == 0,
            synth@.data == (SynthDataModel {
                peak_meter: 0,
                samples: Seq::<i64>::empty(),
                decay_weight: ONE as int,
            }),
    {
        Synth { sample_rate: 1, notes: NoteStorage::new(), data: SynthData::new(data_input) }
    }

    /// Takes the sample rate of the host and the weight by which the peak
    /// meter decays with each sample.
    pub fn initialize(&mut self, sample_rate: u32, peak_meter_decay_weight: u32)
        requires
            old(self).wf(),
            sample_rate > 0,
            peak_meter_decay_weight <= ONE,
        ensures
            final(self).wf(),
            final(self)@ == (SynthModel {
                sample_rate,
                data: SynthDataModel {
                    decay_weight: peak_meter_decay_weight as int,
                    ..old(self)@.data
                },
                ..old(self)@
            }),
    {
        self.sample_rate = sample_rate;
        self.data.set_peak_meter_decay_weight(peak_meter_decay_weight);
    }

    /// Produces one frame: takes over the settings of the cache, applies the
    /// events in their order, mixes the next sample of every note and
    /// multiplies it by the master volume, drops the notes that have ended,
    /// and shows the sample to the user interface if its editor is open.
    pub fn process(
        &mut self,
        cache: &ParamCache,
        events: &Vec<NoteEvent>,
        volume: u32,
        editor_open: bool,
    ) -> (new_sample: i64)
        requires
            old(self).wf(),
            cache.wf(),
            forall|i: int| 0 <= i < events@.len() ==> event_ok(#[trigger] events@[i]),
        ensures
            final(self).wf(),
            new_sample == frame_sample(
                prepared(old(self)@.notes, cache@, events@, old(self)@.sample_rate),
                volume,
            ),
            final(self)@ == (SynthModel {
                sample_rate: old(self)@.sample_rate,
                notes: prepared(
                    old(self)@.notes,
                    cache@,
                    events@,
                    old(self)@.sample_rate,
                ).stepped().pruned(),
                data: if editor_open {
                    old(self)@.data.pushed(new_sample)
                } else {
                    old(self)@.data
                },
            }),
    {
        self.notes.update(cache);
        let ghost start = self.notes@;
        let mut i: usize = 0;
        while i < events.len()
            invariant
                i <= events.len(),
                self.notes.wf(),
                self.sample_rate == old(self).sample_rate,
                self.sample_rate > 0,
                self.data == old(self).data,
                forall|k: int| 0 <= k < events@.len() ==> event_ok(#[trigger] events@[k]),
                self.notes@ == handle_all(start, events@.take(i as int), self.sample_rate),
            decreases events.len() - i,
        {
            assert(events@.take(i + 1).drop_last() == events@.take(i as int));
            assert(event_ok(events@[i as int]));
            self.notes.process_midi(events[i], self.sample_rate);
            i = i + 1;
        }
        assert(events@.take(events@.len() as int) == events@);
        let new_sample = scale(self.notes.get_sample_value(), volume);
        self.notes.remove_finished_notes();
        if editor_open {
            self.data.set_visual_data(new_sample);
        }
        new_sample
    }
}

} // verus!
