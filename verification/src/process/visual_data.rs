//! What the audio thread shows to the user interface: a peak meter and a
//! rolling window of the latest samples, handed over through a triple buffer.

use vstd::prelude::*;
use triple_buffer::Input;
use crate::fixed::ONE;

verus! {

/// The number of samples that the rolling window holds.
pub const WINDOW_CAPACITY: usize = 10_000;

#[verifier::external_type_specification]
#[verifier::external_body]
#[verifier::reject_recursive_types(T)]
pub struct ExInput<T: Send>(Input<T>);

/// The value that the producer's end of a triple buffer was given last: the
/// one that the consumer's end is handed, until another is written.
pub uninterp spec fn last_written(input: Input<VisualData>) -> VisualData;

/// `Input::write`: stores `value` on the producer's end and hands it to the
/// consumer's side of the triple buffer, so that it is the value written
/// last.
#[verifier::external_body]
fn publish(input: &mut Input<VisualData>, value: VisualData)
    ensures
        last_written(*final(input)) == value,
{
    input.write(value)
}

/// The size of a sample.
pub open spec fn amplitude_of(sample: int) -> int {
    if sample >= 0 {
        sample
    } else {
        -sample
    }
}

/// The peak decayed toward an amplitude, `peak * weight + amplitude * (1 -
/// weight)`.
pub open spec fn decayed_peak(peak: int, amplitude: int, weight: int) -> int {
    (peak * weight + amplitude * (ONE - weight)) / (ONE as int)
}

/// The peak meter after a sample: the larger of the sample's amplitude and
/// the peak decayed toward that amplitude.
pub open spec fn next_peak(peak: int, sample: int, weight: int) -> int {
    let amplitude = amplitude_of(sample);
    if amplitude > decayed_peak(peak, amplitude, weight) {
        amplitude
    } else {
        decayed_peak(peak, amplitude, weight)
    }
}

/// The rolling window after a sample: the oldest samples leave until there is
/// room, then the sample is put last.
pub open spec fn next_window(samples: Seq<i64>, sample: i64) -> Seq<i64> {
    if samples.len() >= WINDOW_CAPACITY {
        samples.skip(samples.len() - WINDOW_CAPACITY + 1).push(sample)
    } else {
        samples.push(sample)
    }
}

/// A peak decays to a value between the amplitude and itself: with an
/// amplitude above the peak the meter jumps to the amplitude, else it falls
/// toward it.
pub proof fn lemma_decayed_peak_between(peak: int, amplitude: int, weight: int)
    requires
        0 <= peak,
        0 <= amplitude,
        0 <= weight <= ONE,
    ensures
        amplitude <= peak ==> amplitude <= decayed_peak(peak, amplitude, weight) <= peak,
        amplitude > peak ==> peak <= decayed_peak(peak, amplitude, weight) <= amplitude,
{
    let blend = peak * weight + amplitude * (ONE - weight);
    if amplitude <= peak {
        assert(amplitude * 65536 <= blend <= peak * 65536) by (nonlinear_arith)
            requires
                0 <= amplitude <= peak,
                0 <= weight <= 65536,
                blend == peak * weight + amplitude * (65536 - weight),
        ;
        vstd::arithmetic::div_mod::lemma_div_is_ordered(amplitude * 65536, blend, 65536);
        vstd::arithmetic::div_mod::lemma_div_is_ordered(blend, peak * 65536, 65536);
    } else {
        assert(peak * 65536 <= blend <= amplitude * 65536) by (nonlinear_arith)
            requires
                0 <= peak < amplitude,
                0 <= weight <= 65536,
                blend == peak * weight + amplitude * (65536 - weight),
        ;
        vstd::arithmetic::div_mod::lemma_div_is_ordered(peak * 65536, blend, 65536);
        vstd::arithmetic::div_mod::lemma_div_is_ordered(blend, amplitude * 65536, 65536);
    }
}

/// A snapshot for the user interface.
#[derive(Debug)]
pub struct VisualData {
    /// The peak level, Q16.16.
    pub peak_meter: u64,
    /// The latest samples, oldest first.
    pub samples: Vec<i64>,
}

impl VisualData {
    /// Moves the peak meter by `new_sample` and puts the sample into the
    /// rolling window.
    pub fn push(&mut self, new_sample: i64, decay_weight: u32)
        requires
            decay_weight <= ONE,
        ensures
            final(self).peak_meter == next_peak(
                old(self).peak_meter as int,
                new_sample as int,
                decay_weight as int,
            ),
            final(self).samples@ == next_window(old(self).samples@, new_sample),
    {
        let amplitude: u64 = if new_sample >= 0 {
            new_sample as u64
        } else if new_sample == i64::MIN {
            0x8000_0000_0000_0000
        } else {
            (-new_sample) as u64
        };
        proof {
            lemma_decayed_peak_between(
                self.peak_meter as int,
                amplitude as int,
                decay_weight as int,
            );
        }
        if amplitude > self.peak_meter {
            self.peak_meter = amplitude;
        } else {
            let weight: u128 = decay_weight as u128;
            assert(self.peak_meter * weight <= 0xffff_ffff_ffff_ffff * 65536 && amplitude * (65536
                - weight) <= 0xffff_ffff_ffff_ffff * 65536) by (nonlinear_arith)
                requires
                    0 <= self.peak_meter <= 0xffff_ffff_ffff_ffff,
                    0 <= amplitude <= 0xffff_ffff_ffff_ffff,
                    0 <= weight <= 65536,
            ;
            let blend: u128 = self.peak_meter as u128 * weight + amplitude as u128 * (65536
                - weight);
            self.peak_meter = (blend / 65536) as u64;
        }
        let ghost before = self.samples@;
        while self.samples.len() >= WINDOW_CAPACITY
            invariant
                self.samples@.len() <= before.len(),
                self.samples@ == before.skip(before.len() - self.samples@.len()),
                before.len() < WINDOW_CAPACITY ==> self.samples@ == before,
                before.len() >= WINDOW_CAPACITY ==> self.samples@.len() >= WINDOW_CAPACITY - 1,
                self.peak_meter == next_peak(
                    old(self).peak_meter as int,
                    new_sample as int,
                    decay_weight as int,
                ),
            decreases self.samples@.len(),
        {
            self.samples.remove(0);
        }
        self.samples.push(new_sample);
    }
}

impl Clone for VisualData {
    fn clone(&self) -> (copy: VisualData)
        ensures
            copy.peak_meter == self.peak_meter,
            copy.samples@ == self.samples@,
    {
        let mut samples: Vec<i64> = Vec::with_capacity(WINDOW_CAPACITY);
        let mut i: usize = 0;
        while i < self.samples.len()
            invariant
                i <= self.samples.len(),
                samples@ == self.samples@.take(i as int),
            decreases self.samples.len() - i,
        {
            samples.push(self.samples[i]);
            i = i + 1;
        }
        VisualData { peak_meter: self.peak_meter, samples }
    }
}

impl Default for VisualData {
    /// Silence: a peak of zero and an empty window.
    fn default() -> (data: VisualData)
        ensures
            data.peak_meter == 0,
            data.samples@ == Seq::<i64>::empty(),
    {
        VisualData { peak_meter: 0, samples: Vec::with_capacity(WINDOW_CAPACITY) }
    }
}

/// The audio thread's end of the bridge to the user interface.
pub struct SynthData {
    data: Input<VisualData>,
    current: VisualData,
    peak_meter_decay_weight: u32,
}

/// What the audio thread's end of the bridge has handed to the triple buffer
/// last, and the weight it works with.
#[verifier::ext_equal]
pub struct SynthDataModel {
    /// The peak level that was published last.
    pub peak_meter: int,
    /// The rolling window that was published last.
    pub samples: Seq<i64>,
    /// The weight by which the peak decays with each sample.
    pub decay_weight: int,
}

impl SynthDataModel {
    /// The bridge after a sample: the peak meter has moved, the sample is in
    /// the rolling window.
    pub open spec fn pushed(self, sample: i64) -> SynthDataModel {
        SynthDataModel {
            peak_meter: next_peak(self.peak_meter, sample as int, self.decay_weight),
            samples: next_window(self.samples, sample),
            decay_weight: self.decay_weight,
        }
    }
}

impl View for SynthData {
    type V = SynthDataModel;

    closed spec fn view(&self) -> SynthDataModel {
        SynthDataModel {
            peak_meter: last_written(self.data).peak_meter as int,
            samples: last_written(self.data).samples@,
            decay_weight: self.peak_meter_decay_weight as int,
        }
    }
}

impl SynthData {
    /// The copy that the bridge works on is the one that it published last.
    pub closed spec fn in_step(&self) -> bool {
        &&& self.current.peak_meter == last_written(self.data).peak_meter
        &&& self.current.samples@ == last_written(self.data).samples@
    }

    /// The bridge works on what it published last, and the decay weight is
    /// at most one.
    pub open spec fn wf(&self) -> bool {
        &&& self.in_step()
        &&& 0 <= self@.decay_weight <= ONE
    }

    /// Takes the producer's end of a triple buffer and publishes silence.
    /// The peak does not decay until a weight is set.
    pub fn new(data_input: Input<VisualData>) -> (synth_data: SynthData)
        ensures
            synth_data.wf(),
            synth_data@ == (SynthDataModel {
                peak_meter: 0,
                samples: Seq::<i64>::empty(),
                decay_weight: ONE as int,
            }),
    {
        let mut data_input = data_input;
        publish(&mut data_input, VisualData::default());
        SynthData {
            data: data_input,
            current: VisualData::default(),
            peak_meter_decay_weight: ONE,
        }
    }

    /// Moves the peak meter by `new_sample`, puts the sample into the rolling
    /// window, and publishes both.
    pub fn set_visual_data(&mut self, new_sample: i64)
        requires
            old(self).wf(),
        ensures
            final(self).wf(),
            final(self)@ == old(self)@.pushed(new_sample),
    {
        self.current.push(new_sample, self.peak_meter_decay_weight);
        let snapshot = self.current.clone();
        publish(&mut self.data, snapshot);
    }

    /// Sets the weight by which the peak decays with each sample.
    pub fn set_peak_meter_decay_weight(&mut self, peak_meter_decay_weight: u32)
        requires
            old(self).wf(),
            peak_meter_decay_weight <= ONE,
        ensures
            final(self).wf(),
            final(self)@ == (SynthDataModel {
                decay_weight: peak_meter_decay_weight as int,
                ..old(self)@
            }),
    {
        self.peak_meter_decay_weight = peak_meter_decay_weight;
    }

    /// A copy of what was published last.
    pub fn snapshot(&self) -> (data: VisualData)
        requires
            self.wf(),
        ensures
            data.peak_meter == self@.peak_meter,
            data.samples@ == self@.samples,
    {
        self.current.clone()
    }
}

} // verus!
