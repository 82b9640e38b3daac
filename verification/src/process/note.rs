//! A note: one oscillator layer of a voice, shaped by the envelope that is
//! routed to it.

use vstd::prelude::*;
use crate::fixed::{lemma_scaled_bounds, scale, scaled, ONE};
use crate::params::envelope_target::Target;
use crate::process::envelope::{
    envelope_models,
    envelopes_wf,
    Adsr,
    Envelope,
    EnvelopeModel,
    EnvelopeProperties,
    Stage,
};
use crate::process::pitch::{midi_note_to_freq, note_pitch, pitch_frequency};
use crate::process::wave::{wave_value, Wave, WaveProperties};
pub use crate::process::wave::WaveKind;
use crate::ENVELOPE_AMOUNT;

verus! {

/// The settings of one oscillator slot.
#[derive(Clone, Copy, Debug, PartialEq, Eq, Structural)]
pub struct OscillatorProperties {
    pub kind: WaveKind,
    /// Q16.16; read by the square wave only.
    pub pulse_width: u32,
    /// Linear gain, Q16.16.
    pub volume: u32,
    pub enabled: bool,
    /// Semitones.
    pub transpose: i32,
    /// Q16.16 cents.
    pub detune: i32,
}

impl OscillatorProperties {
    pub fn new(
        kind: WaveKind,
        pulse_width: u32,
        volume: u32,
        enabled: bool,
        transpose: i32,
        detune: i32,
    ) -> (properties: OscillatorProperties)
        ensures
            properties == (OscillatorProperties {
                kind,
                pulse_width,
                volume,
                enabled,
                transpose,
                detune,
            }),
    {
        OscillatorProperties { kind, pulse_width, volume, enabled, transpose, detune }
    }
}

impl Default for OscillatorProperties {
    /// An enabled sine at full volume and at the pitch of its note.
    fn default() -> (properties: OscillatorProperties)
        ensures
            properties == (OscillatorProperties {
                kind: WaveKind::Sine,
                pulse_width: 32768,
                volume: ONE,
                enabled: true,
                transpose: 0,
                detune: 0,
            }),
    {
        OscillatorProperties {
            kind: WaveKind::Sine,
            pulse_width: 32768,
            volume: ONE,
            enabled: true,
            transpose: 0,
            detune: 0,
        }
    }
}

/// The index of the first envelope from `from` on that shapes the oscillator
/// `oscillator_id`.
pub open spec fn routed_envelope(
    envelopes: Seq<EnvelopeModel>,
    oscillator_id: usize,
    from: int,
) -> Option<int>
    decreases envelopes.len() - from,
{
    if from < 0 || from >= envelopes.len() {
        None
    } else if envelopes[from].shapes(oscillator_id) {
        Some(from)
    } else {
        routed_envelope(envelopes, oscillator_id, from + 1)
    }
}

/// The routed envelope is the first that shapes the oscillator; there is none
/// only if no envelope shapes it.
pub proof fn lemma_routed_envelope_is_first(
    envelopes: Seq<EnvelopeModel>,
    oscillator_id: usize,
    from: int,
)
    requires
        0 <= from,
    ensures
        match routed_envelope(envelopes, oscillator_id, from) {
            Some(i) => {
                &&& from <= i < envelopes.len()
                &&& envelopes[i].shapes(oscillator_id)
                &&& forall|j: int| from <= j < i ==> !(#[trigger] envelopes[j]).shapes(oscillator_id)
            },
            None => forall|j: int|
                from <= j < envelopes.len() ==> !(#[trigger] envelopes[j]).shapes(oscillator_id),
        },
    decreases envelopes.len() - from,
{
    if from < envelopes.len() && !envelopes[from].shapes(oscillator_id) {
        lemma_routed_envelope_is_first(envelopes, oscillator_id, from + 1);
    }
}

/// One oscillator layer of a sounding voice.
#[derive(Clone, Copy, Debug, PartialEq, Eq, Structural)]
pub struct Note {
    pub midi_note: u8,
    /// Q16.16, at most one.
    pub velocity: u32,
    pub oscillator_id: usize,
    pub wave: Wave,
    pub envelope: Envelope,
}

impl Note {
    /// Velocity and envelope gains are at most one, and the sample rate is
    /// not zero.
    pub open spec fn wf(self) -> bool {
        &&& self.velocity <= ONE
        &&& self.wave.wf()
        &&& self.envelope.wf()
        &&& self.envelope.last_volume <= ONE
        &&& (self.envelope.stage matches Stage::Released { gain_before, .. } ==> gain_before <= ONE)
    }

    /// The oscillator tuned to the note's pitch under `oscillator`.
    pub open spec fn tuned(self, oscillator: OscillatorProperties) -> Wave {
        Wave {
            frequency: pitch_frequency(
                note_pitch(self.midi_note, oscillator.transpose, oscillator.detune),
            ) as u32,
            ..self.wave
        }
    }

    /// The oscillator's part of the next sample: the wave's value times the
    /// volume, or silence while the oscillator is disabled.
    pub open spec fn wave_part(self, oscillator: OscillatorProperties) -> int {
        if oscillator.enabled {
            scaled(
                wave_value(oscillator.kind, self.wave.phase as int, oscillator.pulse_width as int),
                oscillator.volume as int,
            )
        } else {
            0
        }
    }

    /// The oscillator after the next sample; a disabled oscillator stands
    /// still.
    pub open spec fn wave_after(self, oscillator: OscillatorProperties) -> Wave {
        if oscillator.enabled {
            self.tuned(oscillator).stepped()
        } else {
            self.wave
        }
    }

    /// The note's envelope under the ADSR values of the envelope routed to
    /// it, if there is one.
    pub open spec fn shaped(self, envelopes: Seq<EnvelopeModel>) -> Option<Envelope> {
        match routed_envelope(envelopes, self.oscillator_id, 0) {
            Some(i) => Some(Envelope { adsr: envelopes[i].adsr, ..self.envelope }),
            None => None,
        }
    }

    /// The envelope's part of the next sample: the gain of the routed
    /// envelope, or one where no envelope is routed to the note.
    pub open spec fn envelope_part(self, envelopes: Seq<EnvelopeModel>) -> int {
        match self.shaped(envelopes) {
            Some(envelope) => envelope.current().gain as int,
            None => ONE as int,
        }
    }

    /// The envelope after the next sample; without a routed envelope it
    /// stands still.
    pub open spec fn envelope_after(self, envelopes: Seq<EnvelopeModel>) -> Envelope {
        match self.shaped(envelopes) {
            Some(envelope) => envelope.stepped(),
            None => self.envelope,
        }
    }

    /// The next sample: wave times envelope gain times velocity.
    pub open spec fn sample(
        self,
        oscillator: OscillatorProperties,
        envelopes: Seq<EnvelopeModel>,
    ) -> int {
        scaled(
            scaled(self.wave_part(oscillator), self.envelope_part(envelopes)),
            self.velocity as int,
        )
    }

    /// The note after the next sample.
    pub open spec fn stepped(
        self,
        oscillator: OscillatorProperties,
        envelopes: Seq<EnvelopeModel>,
    ) -> Note {
        Note {
            wave: self.wave_after(oscillator),
            envelope: self.envelope_after(envelopes),
            ..self
        }
    }

    /// The note's envelope as a release finds it: under the ADSR values of
    /// the envelope routed to the note, or as it is where none is routed.
    pub open spec fn envelope_at_release(self, envelopes: Seq<EnvelopeModel>) -> Envelope {
        match self.shaped(envelopes) {
            Some(envelope) => envelope,
            None => self.envelope,
        }
    }

    /// The note after `release`: its envelope is released under the ADSR
    /// values routed to it; a note that has ended stays as it is.
    pub open spec fn released(self, envelopes: Seq<EnvelopeModel>) -> Note {
        if self.ended() {
            self
        } else {
            Note { envelope: self.envelope_at_release(envelopes).released(), ..self }
        }
    }

    /// Whether the note's envelope has ended.
    pub open spec fn ended(self) -> bool {
        self.envelope.stage == Stage::Finished
    }

    /// A held note at the start of its wave and of its envelope.
    pub open spec fn fresh(midi_note: u8, velocity: u32, sample_rate: u32, oscillator_id: usize) -> Note {
        Note {
            midi_note,
            velocity,
            oscillator_id,
            wave: Wave { phase: 0, frequency: 0, sample_rate },
            envelope: Envelope {
                adsr: Adsr { attack: 655, decay: 0, sustain: ONE, release: 655 },
                sample_rate,
                time: 0,
                last_volume: 0,
                stage: Stage::Held,
            },
        }
    }

    /// A held note at the start of its wave and of its envelope.
    pub fn new(midi_note: u8, velocity: u32, sample_rate: u32, oscillator_id: usize) -> (note: Note)
        requires
            velocity <= ONE,
            sample_rate > 0,
        ensures
            note == Note::fresh(midi_note, velocity, sample_rate, oscillator_id),
            note.wf(),
    {
        Note {
            midi_note,
            velocity,
            oscillator_id,
            wave: Wave::new(0, sample_rate),
            envelope: Envelope::new(Adsr::default(), sample_rate),
        }
    }

    /// Starts the release of the note's envelope from the gain that the
    /// note has at this moment under the envelope routed to it. A note that
    /// has ended stays ended.
    pub fn release(&mut self, envelopes: &[EnvelopeProperties; ENVELOPE_AMOUNT])
        requires
            old(self).wf(),
            envelopes_wf(envelope_models(envelopes@)),
        ensures
            *final(self) == old(self).released(envelope_models(envelopes@)),
            final(self).wf(),
    {
        if self.is_finished() {
            return ;
        }
        proof {
            lemma_routed_envelope_is_first(envelope_models(envelopes@), self.oscillator_id, 0);
        }
        if let Some(envelope) = self.get_envelope(envelopes) {
            self.envelope.set_adsr(envelope.adsr);
        }
        proof {
            crate::process::envelope::lemma_env_gain_bounds(
                self.envelope.adsr,
                self.envelope.stage,
                self.envelope.time as int,
                self.envelope.sample_rate as int,
            );
        }
        self.envelope.release()
    }

    /// Produces the next sample and advances oscillator and envelope.
    pub fn get_sample(
        &mut self,
        oscillator: &OscillatorProperties,
        envelopes: &[EnvelopeProperties; ENVELOPE_AMOUNT],
    ) -> (sample: i64)
        requires
            old(self).wf(),
            envelopes_wf(envelope_models(envelopes@)),
        ensures
            sample == old(self).sample(*oscillator, envelope_models(envelopes@)),
            *final(self) == old(self).stepped(*oscillator, envelope_models(envelopes@)),
            final(self).wf(),
            -0x1_0000_0000 < sample < 0x1_0000_0000,
    {
        let sample = self.get_wave_sample(oscillator);
        let env_gain = self.get_envelope_gain(envelopes);
        proof {
            lemma_scaled_bounds(sample as int, env_gain as int);
            lemma_scaled_bounds(scaled(sample as int, env_gain as int), self.velocity as int);
        }
        scale(scale(sample, env_gain), self.velocity)
    }

    pub fn is_finished(&self) -> (finished: bool)
        ensures
            finished == self.ended(),
    {
        matches!(self.envelope.stage, Stage::Finished)
    }

    /// The oscillator's part of the next sample; advances the oscillator
    /// unless it is disabled.
    pub fn get_wave_sample(&mut self, oscillator: &OscillatorProperties) -> (sample: i64)
        requires
            old(self).wave.wf(),
        ensures
            sample == old(self).wave_part(*oscillator),
            *final(self) == (Note { wave: old(self).wave_after(*oscillator), ..*old(self) }),
            -0x1_0000_0000 < sample < 0x1_0000_0000,
    {
        if !oscillator.enabled {
            return 0;
        }
        self.wave.frequency = midi_note_to_freq(
            self.midi_note,
            oscillator.transpose,
            oscillator.detune,
        );
        let properties = WaveProperties::new(oscillator.kind, oscillator.pulse_width);
        let sample = self.wave.get_sample(&properties);
        proof {
            lemma_scaled_bounds(sample as int, oscillator.volume as int);
            let m = if sample >= 0 { sample as int } else { -sample };
            assert(m * oscillator.volume <= 65536 * 0xffff_ffff) by (nonlinear_arith)
                requires
                    0 <= m <= 65536,
                    0 <= oscillator.volume <= 0xffff_ffff,
            ;
        }
        scale(sample, oscillator.volume)
    }

    /// The envelope's part of the next sample; advances the envelope if one
    /// is routed to the note.
    pub fn get_envelope_gain(&mut self, envelopes: &[EnvelopeProperties; ENVELOPE_AMOUNT]) -> (gain: u32)
        requires
            old(self).wf(),
            envelopes_wf(envelope_models(envelopes@)),
        ensures
            gain == old(self).envelope_part(envelope_models(envelopes@)),
            *final(self) == (Note { envelope: old(self).envelope_after(envelope_models(envelopes@)), ..*old(self) }),
            final(self).wf(),
            gain <= ONE,
    {
        proof {
            lemma_routed_envelope_is_first(envelope_models(envelopes@), self.oscillator_id, 0);
        }
        if let Some(envelope) = self.get_envelope(envelopes) {
            self.envelope.set_adsr(envelope.adsr);
            let (gain, _) = self.envelope.get_gain();
            gain
        } else {
            ONE
        }
    }

    /// The first envelope, by slot index, that names all oscillators or this
    /// note's oscillator.
    pub fn get_envelope<'a>(&self, envelopes: &'a [EnvelopeProperties; ENVELOPE_AMOUNT]) -> (found: Option<
        &'a EnvelopeProperties,
    >)
        ensures
            match routed_envelope(envelope_models(envelopes@), self.oscillator_id, 0) {
                Some(i) => found == Some(&envelopes@[i]),
                None => found is None,
            },
    {
        let mut i: usize = 0;
        while i < ENVELOPE_AMOUNT
            invariant
                i <= ENVELOPE_AMOUNT,
                envelopes@.len() == ENVELOPE_AMOUNT,
                routed_envelope(envelope_models(envelopes@), self.oscillator_id, 0)
                    == routed_envelope(envelope_models(envelopes@), self.oscillator_id, i as int),
            decreases ENVELOPE_AMOUNT - i,
        {
            let envelope = &envelopes[i];
            if envelope.has_target(Target::AllOscillators) || envelope.has_target(
                Target::Oscillator(self.oscillator_id),
            ) {
                return Some(envelope);
            }
            i = i + 1;
        }
        None
    }
}

/// A well-formed note's next sample lies within 2^32, and the note is
/// well-formed after it.
pub proof fn lemma_note_sample_bounds(
    note: Note,
    oscillator: OscillatorProperties,
    envelopes: Seq<EnvelopeModel>,
)
    requires
        note.wf(),
        envelopes_wf(envelopes),
    ensures
        -0x1_0000_0000 < note.sample(oscillator, envelopes) < 0x1_0000_0000,
        note.stepped(oscillator, envelopes).wf(),
        note.stepped(oscillator, envelopes).oscillator_id == note.oscillator_id,
{
    let wave = wave_value(oscillator.kind, note.wave.phase as int, oscillator.pulse_width as int);
    crate::process::wave::lemma_wave_value_bounds(
        oscillator.kind,
        note.wave.phase as int,
        oscillator.pulse_width as int,
    );
    lemma_scaled_bounds(wave, oscillator.volume as int);
    let m = if wave >= 0 { wave } else { -wave };
    assert(m * oscillator.volume <= 65536 * 0xffff_ffff) by (nonlinear_arith)
        requires
            0 <= m <= 65536,
            0 <= oscillator.volume <= 0xffff_ffff,
    ;
    let part = note.wave_part(oscillator);
    assert(-0x1_0000_0000 < part < 0x1_0000_0000);
    lemma_routed_envelope_is_first(envelopes, note.oscillator_id, 0);
    let gain = note.envelope_part(envelopes);
    match note.shaped(envelopes) {
        Some(envelope) => {
            crate::process::envelope::lemma_env_gain_bounds(
                envelope.adsr,
                envelope.stage,
                envelope.time as int,
                envelope.sample_rate as int,
            );
        },
        None => {},
    }
    assert(0 <= gain <= ONE);
    lemma_scaled_bounds(part, gain);
    lemma_scaled_bounds(scaled(part, gain), note.velocity as int);
}

/// A note whose envelope has ended is silent under any envelope that is
/// routed to it, and stays ended.
pub proof fn law_ended_note_is_silent(
    note: Note,
    oscillator: OscillatorProperties,
    envelopes: Seq<EnvelopeModel>,
)
    requires
        note.ended(),
        routed_envelope(envelopes, note.oscillator_id, 0) is Some,
    ensures
        note.sample(oscillator, envelopes) == 0,
        note.stepped(oscillator, envelopes).ended(),
{
    let part = note.wave_part(oscillator);
    assert(part * 0 == 0 && (-part) * 0 == 0) by (nonlinear_arith);
    assert(scaled(part, 0) == 0);
    assert(0 * (note.velocity as int) == 0) by (nonlinear_arith);
}

} // verus!
