//! Wave shapes and the oscillator that runs through them.
//!
//! A phase is a `u32` that counts 2^-32 parts of a cycle, so that adding with
//! wrap-around is the modulo of the phase. A wave value is Q16.16 and lies
//! between -1 and 1.

use vstd::prelude::*;
use crate::fixed::ONE;
use crate::process::pitch::{phase_delta, phase_step};

verus! {

/// The shape of a wave.
#[derive(Clone, Copy, Debug, PartialEq, Eq, Hash, Structural)]
pub enum WaveKind {
    Sine,
    Triangle,
    Saw,
    Square,
}

/// Half a cycle, in phase units.
pub const HALF_CYCLE: u32 = 0x8000_0000;

/// A whole cycle, in phase units.
pub open spec fn cycle() -> int {
    0x1_0000_0000
}

/// The phase as a distance from the nearest start of a cycle: the phase
/// itself in the first half of a cycle, the phase less one cycle in the second.
pub open spec fn centred(phase: int) -> int {
    if phase < HALF_CYCLE {
        phase
    } else {
        phase - cycle()
    }
}

/// The size of the sine over half a cycle: the rational approximation
/// `4 u / (5/4 - u)` of `sin(2 pi p)` with `u = p (1/2 - p)`, evaluated on
/// the top 16 bits `x` of the place in the half cycle, where it reads
/// `4 x (65536 - x) / (5 * 2^30 - x (65536 - x))`. It is exact at the
/// quarters of a cycle and differs from the true sine by at most 0.0017 of
/// full scale in between.
pub open spec fn sine_magnitude(phase: int) -> int {
    let x = (phase % (HALF_CYCLE as int)) / 32768;
    let u = x * (65536 - x);
    (u * 262144) / (5368709120 - u)
}

/// The sine wave: positive in the first half of a cycle, negative in the
/// second.
pub open spec fn sine_wave(phase: int) -> int {
    if phase < HALF_CYCLE {
        sine_magnitude(phase)
    } else {
        -sine_magnitude(phase)
    }
}

/// The triangle wave `2 |2 s| - 1` over the centred phase `s`: -1 at the
/// start of a cycle, 1 in its middle.
pub open spec fn triangle_wave(phase: int) -> int {
    let s = centred(phase);
    (if s >= 0 {
        s
    } else {
        -s
    }) / 16384 - ONE
}

/// The saw wave `2 s` over the centred phase `s`, rounded toward zero.
pub open spec fn saw_wave(phase: int) -> int {
    let s = centred(phase);
    if s >= 0 {
        s / 32768
    } else {
        -((-s) / 32768)
    }
}

/// The square wave: 1 while the phase is below the pulse width, -1 from there
/// on.
pub open spec fn square_wave(phase: int, pulse_width: int) -> int {
    if phase < pulse_width * 65536 {
        ONE as int
    } else {
        -(ONE as int)
    }
}

/// The value of the wave of shape `wave` at `phase`.
pub open spec fn wave_value(wave: WaveKind, phase: int, pulse_width: int) -> int {
    match wave {
        WaveKind::Sine => sine_wave(phase),
        WaveKind::Triangle => triangle_wave(phase),
        WaveKind::Saw => saw_wave(phase),
        WaveKind::Square => square_wave(phase, pulse_width),
    }
}

/// The phase one sample later.
pub open spec fn advanced(phase: int, delta: int) -> int {
    (phase + delta) % cycle()
}

/// The size of the sine is at most one; it is 0 at the start of a half cycle
/// and 1 in its middle.
pub proof fn lemma_sine_magnitude_bounds(phase: int)
    requires
        0 <= phase < cycle(),
    ensures
        0 <= sine_magnitude(phase) <= ONE,
        phase % (HALF_CYCLE as int) == 0 ==> sine_magnitude(phase) == 0,
        phase % (HALF_CYCLE as int) == 0x4000_0000 ==> sine_magnitude(phase) == ONE,
{
    let x = (phase % (HALF_CYCLE as int)) / 32768;
    let u = x * (65536 - x);
    assert(0 <= u <= 0x4000_0000) by (nonlinear_arith)
        requires
            0 <= x < 65536,
            u == x * (65536 - x),
    ;
    let d = 5368709120 - u;
    assert(u * 262144 <= d * 65536);
    assert((u * 262144) / d <= 65536) by (nonlinear_arith)
        requires
            0 <= u * 262144 <= d * 65536,
            0 < d,
    ;
    assert(0 <= (u * 262144) / d) by (nonlinear_arith)
        requires
            0 <= u * 262144,
            0 < d,
    ;
    if phase % (HALF_CYCLE as int) == 0 {
        assert(x == 0);
        assert(u == 0) by (nonlinear_arith)
            requires
                x == 0,
                u == x * (65536 - x),
        ;
    }
    if phase % (HALF_CYCLE as int) == 0x4000_0000 {
        assert(x == 32768);
        assert(u == 0x4000_0000) by (nonlinear_arith)
            requires
                x == 32768,
                u == x * (65536 - x),
        ;
        assert(d == 0x1_0000_0000);
        assert((u * 262144) / d == 65536) by (nonlinear_arith)
            requires
                u == 0x4000_0000,
                d == 0x1_0000_0000,
        ;
    }
}

/// Every wave value lies between -1 and 1.
pub proof fn lemma_wave_value_bounds(wave: WaveKind, phase: int, pulse_width: int)
    requires
        0 <= phase < cycle(),
    ensures
        -ONE <= wave_value(wave, phase, pulse_width) <= ONE,
{
    lemma_sine_magnitude_bounds(phase);
}

/// The value of the wave of shape `wave` at `phase`, for a pulse width in
/// Q16.16 that only the square wave reads.
pub fn get_wave_sample(wave: WaveKind, phase: u32, pulse_width: u32) -> (sample: i64)
    ensures
        sample == wave_value(wave, phase as int, pulse_width as int),
        -ONE <= sample <= ONE,
{
    proof {
        lemma_wave_value_bounds(wave, phase as int, pulse_width as int);
    }
    match wave {
        WaveKind::Sine => {
            let x: u64 = ((phase % HALF_CYCLE) / 32768) as u64;
            assert(0 <= x * (65536 - x) <= 0x4000_0000) by (nonlinear_arith)
                requires
                    0 <= x < 65536,
            ;
            let u: u64 = x * (65536 - x);
            let magnitude: i64 = ((u * 262144) / (5368709120 - u)) as i64;
            if phase < HALF_CYCLE {
                magnitude
            } else {
                -magnitude
            }
        },
        WaveKind::Triangle => {
            let distance: i64 = if phase < HALF_CYCLE {
                phase as i64
            } else {
                0x1_0000_0000 - phase as i64
            };
            distance / 16384 - 65536
        },
        WaveKind::Saw => {
            if phase < HALF_CYCLE {
                (phase / 32768) as i64
            } else {
                -((0x1_0000_0000 - phase as i64) / 32768)
            }
        },
        WaveKind::Square => {
            if (phase as u64) < pulse_width as u64 * 65536 {
                65536
            } else {
                -65536
            }
        },
    }
}

/// The shape of an oscillator's wave and the width of its pulse.
#[derive(Clone, Copy, Debug, PartialEq, Eq, Structural)]
pub struct WaveProperties {
    pub kind: WaveKind,
    /// Q16.16; read by the square wave only.
    pub pulse_width: u32,
}

impl WaveProperties {
    pub fn new(kind: WaveKind, pulse_width: u32) -> (properties: WaveProperties)
        ensures
            properties == (WaveProperties { kind, pulse_width }),
    {
        WaveProperties { kind, pulse_width }
    }
}

impl Default for WaveProperties {
    /// A sine; the pulse width is one half.
    fn default() -> (properties: WaveProperties)
        ensures
            properties == (WaveProperties { kind: WaveKind::Sine, pulse_width: 32768 }),
    {
        WaveProperties { kind: WaveKind::Sine, pulse_width: 32768 }
    }
}

/// An oscillator: a phase that advances by `frequency / sample_rate` of a
/// cycle with every sample.
#[derive(Clone, Copy, Debug, PartialEq, Eq, Structural)]
pub struct Wave {
    /// In 2^-32 parts of a cycle.
    pub phase: u32,
    /// Q16.16 Hz.
    pub frequency: u32,
    /// Samples per second.
    pub sample_rate: u32,
}

impl Wave {
    /// The sample rate is not zero.
    pub open spec fn wf(self) -> bool {
        self.sample_rate > 0
    }

    /// The oscillator's phase advance per sample.
    pub open spec fn delta(self) -> int {
        phase_delta(self.frequency as int, self.sample_rate as int)
    }

    /// The oscillator after one call of `get_sample`.
    pub open spec fn stepped(self) -> Wave {
        Wave { phase: advanced(self.phase as int, self.delta()) as u32, ..self }
    }

    /// The oscillator after `calls` calls of `get_sample`.
    pub open spec fn after(self, calls: nat) -> Wave
        decreases calls,
    {
        if calls == 0 {
            self
        } else {
            self.after((calls - 1) as nat).stepped()
        }
    }

    /// An oscillator of `frequency` Q16.16 Hz at the start of its cycle.
    pub fn new(frequency: u32, sample_rate: u32) -> (wave: Wave)
        ensures
            wave == (Wave { phase: 0, frequency, sample_rate }),
    {
        Wave { frequency, phase: 0, sample_rate }
    }

    /// Returns the wave's value at the current phase, then advances the phase
    /// by one sample, wrapping around at the end of a cycle.
    pub fn get_sample(&mut self, properties: &WaveProperties) -> (sample: i64)
        requires
            old(self).wf(),
        ensures
            sample == wave_value(properties.kind, old(self).phase as int, properties.pulse_width as int),
            -ONE <= sample <= ONE,
            *final(self) == old(self).stepped(),
    {
        let phase_delta = phase_step(self.frequency, self.sample_rate);
        let wave = get_wave_sample(properties.kind, self.phase, properties.pulse_width);
        self.phase = ((self.phase as u64 + phase_delta as u64) % 0x1_0000_0000) as u32;
        wave
    }
}

/// After any number of samples the phase is the start phase plus that many
/// phase advances, modulo one cycle; frequency and sample rate stay.
pub proof fn law_phase_advances_modulo_cycle(wave: Wave, calls: nat)
    requires
        wave.wf(),
    ensures
        wave.after(calls).phase == (wave.phase + calls * wave.delta()) % cycle(),
        wave.after(calls).frequency == wave.frequency,
        wave.after(calls).sample_rate == wave.sample_rate,
    decreases calls,
{
    let d = wave.delta();
    if calls == 0 {
        assert(calls * d == 0) by (nonlinear_arith)
            requires
                calls == 0,
        ;
    } else {
        let before = (calls - 1) as nat;
        law_phase_advances_modulo_cycle(wave, before);
        assert(calls * d == before * d + d) by (nonlinear_arith)
            requires
                calls == before + 1,
        ;
        vstd::arithmetic::div_mod::lemma_add_mod_noop(wave.phase + before * d, d, cycle());
        assert(0 <= d < cycle());
        vstd::arithmetic::div_mod::lemma_small_mod(d as nat, cycle() as nat);
    }
}

/// The phase is periodic: after a number of samples whose phase advances add
/// up to whole cycles, the oscillator is back at its start phase.
pub proof fn law_phase_periodic(wave: Wave, calls: nat)
    requires
        wave.wf(),
        (calls * wave.delta()) % cycle() == 0,
    ensures
        wave.after(calls) == wave,
{
    law_phase_advances_modulo_cycle(wave, calls);
    vstd::arithmetic::div_mod::lemma_add_mod_noop(wave.phase as int, calls * wave.delta(), cycle());
    vstd::arithmetic::div_mod::lemma_small_mod(wave.phase as nat, cycle() as nat);
}

/// How far short of its start phase an oscillator is after `calls` samples
/// that make up one period of its tone.
pub open spec fn period_shortfall(wave: Wave, calls: nat) -> int {
    if wave.frequency as int * 65536 == wave.sample_rate * cycle() {
        0
    } else {
        cycle() - calls * wave.delta()
    }
}

/// Over one period of its tone, that is `sample_rate / frequency` samples
/// where that is a whole number, the oscillator comes back to its start phase
/// but for the rounding of the phase advance: it ends short of the start by
/// less than one phase unit per sample.
pub proof fn law_phase_returns_after_period(wave: Wave, calls: nat)
    requires
        wave.wf(),
        calls > 0,
        calls * wave.frequency == wave.sample_rate * 65536,
    ensures
        0 <= period_shortfall(wave, calls) < calls,
        (wave.after(calls).phase + period_shortfall(wave, calls)) % cycle() == wave.phase,
{
    let f = wave.frequency as int * 65536;
    let rate = wave.sample_rate as int;
    let q = f / rate;
    let r = f % rate;
    let n = calls as int;
    law_phase_advances_modulo_cycle(wave, calls);
    vstd::arithmetic::div_mod::lemma_fundamental_div_mod(f, rate);
    vstd::arithmetic::div_mod::lemma_mod_bound(f, rate);
    assert(n * f == rate * cycle()) by (nonlinear_arith)
        requires
            n * wave.frequency == rate * 65536,
            f == wave.frequency * 65536,
    ;
    assert(0 <= cycle() - n * q < n && 0 <= q) by (nonlinear_arith)
        requires
            n * f == rate * cycle(),
            f == rate * q + r,
            0 <= r < rate,
            0 < n,
            0 <= f,
    ;
    vstd::arithmetic::div_mod::lemma_small_mod(wave.phase as nat, cycle() as nat);
    if f == rate * cycle() {
        assert(q == cycle()) by (nonlinear_arith)
            requires
                f == rate * cycle(),
                f == rate * q + r,
                0 <= r < rate,
        ;
        assert(wave.delta() == 0);
        assert(n * wave.delta() == 0) by (nonlinear_arith)
            requires
                wave.delta() == 0,
        ;
    } else {
        assert(q < cycle()) by (nonlinear_arith)
            requires
                n * f == rate * cycle(),
                f != rate * cycle(),
                f == rate * q + r,
                0 <= r < rate,
                0 < n,
                0 <= cycle() - n * q,
                0 <= q,
        ;
        vstd::arithmetic::div_mod::lemma_small_mod(q as nat, cycle() as nat);
        assert(wave.delta() == q);
        let short = cycle() - n * q;
        vstd::arithmetic::div_mod::lemma_add_mod_noop(wave.phase + n * q, short, cycle());
        vstd::arithmetic::div_mod::lemma_mod_multiples_vanish(1, wave.phase as int, cycle());
        if short < cycle() {
            vstd::arithmetic::div_mod::lemma_small_mod(short as nat, cycle() as nat);
        } else {
            vstd::arithmetic::div_mod::lemma_mod_multiples_vanish(
                1,
                wave.after(calls).phase as int,
                cycle(),
            );
            vstd::arithmetic::div_mod::lemma_small_mod(
                wave.after(calls).phase as nat,
                cycle() as nat,
            );
            assert(n * q == 0);
        }
    }
}

} // verus!
