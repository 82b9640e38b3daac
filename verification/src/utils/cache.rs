//! The per-block snapshot of the parameters that the signal path reads.

use vstd::prelude::*;
use crate::process::envelope::{envelope_models, envelopes_wf, EnvelopeModel, EnvelopeProperties};
use crate::fixed::ONE;
use crate::params::envelope_target::Target;
use crate::process::envelope::Adsr;
use crate::process::note::OscillatorProperties;
use crate::process::wave::WaveKind;
use crate::{ENVELOPE_AMOUNT, OSCILLATOR_AMOUNT};

verus! {

/// One value of every oscillator and envelope parameter, taken once per
/// block.
pub struct ParamCache {
    pub oscillator_properties: [OscillatorProperties; OSCILLATOR_AMOUNT],
    pub envelope_properties: [EnvelopeProperties; ENVELOPE_AMOUNT],
}

/// The settings that a cache holds, as plain values.
#[verifier::ext_equal]
pub struct CacheModel {
    /// The settings of each oscillator slot.
    pub oscillators: Seq<OscillatorProperties>,
    /// The settings of each envelope slot.
    pub envelopes: Seq<EnvelopeModel>,
}

impl View for ParamCache {
    type V = CacheModel;

    open spec fn view(&self) -> CacheModel {
        CacheModel {
            oscillators: self.oscillator_properties@,
            envelopes: envelope_models(self.envelope_properties@),
        }
    }
}

impl ParamCache {
    /// Every envelope's sustain level is at most one.
    pub open spec fn wf(self) -> bool {
        envelopes_wf(self@.envelopes)
    }
}

/// The default oscillator settings: an enabled sine at full volume.
pub open spec fn default_oscillator() -> OscillatorProperties {
    OscillatorProperties {
        kind: WaveKind::Sine,
        pulse_width: 32768,
        volume: ONE,
        enabled: true,
        transpose: 0,
        detune: 0,
    }
}

/// The default envelope settings: ten milliseconds of attack and release
/// around a full sustain level, on the first oscillator.
pub open spec fn default_envelope() -> EnvelopeModel {
    EnvelopeModel {
        adsr: Adsr { attack: 655, decay: 0, sustain: ONE, release: 655 },
        targets: seq![(Target::Oscillator(0), ONE)],
    }
}

/// The default settings in every slot.
pub open spec fn default_settings() -> CacheModel {
    CacheModel {
        oscillators: Seq::new(OSCILLATOR_AMOUNT as nat, |i: int| default_oscillator()),
        envelopes: Seq::new(ENVELOPE_AMOUNT as nat, |i: int| default_envelope()),
    }
}

impl Default for ParamCache {
    /// The default settings in every slot.
    fn default() -> (cache: ParamCache)
        ensures
            cache.wf(),
            cache@ == default_settings(),
    {
        let cache = ParamCache {
            oscillator_properties: [
                OscillatorProperties::default(),
                OscillatorProperties::default(),
                OscillatorProperties::default(),
                OscillatorProperties::default(),
            ],
            envelope_properties: [
                EnvelopeProperties::default(),
                EnvelopeProperties::default(),
                EnvelopeProperties::default(),
                EnvelopeProperties::default(),
            ],
        };
        assert(cache@ =~~= default_settings());
        cache
    }
}

} // verus!
