//! Pitch to frequency, in equal temperament with A4 = 440 Hz.
//!
//! The frequencies of the twelve semitones of the top octave are tabulated;
//! each octave below halves them, and a pitch between two semitones is
//! interpolated linearly between their frequencies.

use vstd::prelude::*;
use crate::fixed::ONE;

verus! {

/// The highest semitone with a frequency of its own; a higher pitch sounds at
/// this one.
pub const TOP_SEMITONE: i64 = 143;

/// Frequency in Q16.16 Hz of the semitone `index` of the top octave, which
/// runs from MIDI note 132 to MIDI note 143.
pub open spec fn top_octave(index: int) -> int {
    if index == 0 {
        1097337155
    } else if index == 1 {
        1162588218
    } else if index == 2 {
        1231719311
    } else if index == 3 {
        1304961152
    } else if index == 4 {
        1382558180
    } else if index == 5 {
        1464769368
    } else if index == 6 {
        1551869087
    } else if index == 7 {
        1644148025
    } else if index == 8 {
        1741914154
    } else if index == 9 {
        1845493760
    } else if index == 10 {
        1955232530
    } else {
        2071496706
    }
}

/// `f` halved `times` times, each time rounded down.
pub open spec fn halved(f: int, times: int) -> int
    decreases times,
{
    if times <= 0 {
        f
    } else {
        halved(f / 2, times - 1)
    }
}

/// Frequency in Q16.16 Hz of a whole semitone (a MIDI note number).
pub open spec fn semitone_frequency(semitone: int) -> int {
    halved(top_octave(semitone % 12), 11 - semitone / 12)
}

/// Frequency in Q16.16 Hz of a pitch given in Q16.16 semitones.
pub open spec fn pitch_frequency(pitch: int) -> int {
    let p = if pitch > TOP_SEMITONE * ONE {
        TOP_SEMITONE * ONE
    } else {
        pitch
    };
    let semitone = p / (ONE as int);
    let fraction = p % (ONE as int);
    let low = semitone_frequency(semitone);
    if fraction == 0 {
        low
    } else {
        low + ((semitone_frequency(semitone + 1) - low) * fraction) / (ONE as int)
    }
}

/// `x / d`, rounded toward zero.
pub open spec fn toward_zero(x: int, d: int) -> int {
    if x >= 0 {
        x / d
    } else {
        -((-x) / d)
    }
}

/// The pitch in Q16.16 semitones of a MIDI note transposed by `transpose`
/// semitones and detuned by `detune` Q16.16 cents.
pub open spec fn note_pitch(midi_note: u8, transpose: i32, detune: i32) -> int {
    (midi_note + transpose) * ONE + toward_zero(detune as int, 100)
}

/// The phase advance per sample, in 2^-32 parts of a cycle, of a tone of
/// `frequency` Q16.16 Hz at `sample_rate` samples per second. A tone above the
/// sample rate wraps around.
pub open spec fn phase_delta(frequency: int, sample_rate: int) -> int {
    ((frequency * 65536) / sample_rate) % 0x1_0000_0000
}

/// Halving keeps a frequency between 0 and itself, and keeps the order of two
/// frequencies.
pub proof fn lemma_halved_ordered(f: int, g: int, times: int)
    requires
        0 <= f <= g,
    ensures
        0 <= halved(f, times) <= halved(g, times) <= g,
    decreases times,
{
    if times > 0 {
        lemma_halved_ordered(f / 2, g / 2, times - 1);
    }
}

/// One more halving is a halving of the start.
pub proof fn lemma_halved_once_more(f: int, times: int)
    requires
        0 <= times,
    ensures
        halved(f, times + 1) == halved(f / 2, times),
{
}

/// The frequency of a semitone is positive at most 2^31, and no semitone up to
/// the top one is higher than the next.
pub proof fn lemma_semitone_frequency_bounds(semitone: int)
    requires
        semitone <= TOP_SEMITONE,
    ensures
        0 <= semitone_frequency(semitone) < 0x8000_0000,
        semitone < TOP_SEMITONE ==> semitone_frequency(semitone) <= semitone_frequency(semitone + 1)
            < 0x8000_0000,
{
    let index = semitone % 12;
    let times = 11 - semitone / 12;
    lemma_halved_ordered(top_octave(index), top_octave(index), times);
    if semitone < TOP_SEMITONE {
        let next = semitone + 1;
        lemma_halved_ordered(top_octave(next % 12), top_octave(next % 12), 11 - next / 12);
        if index < 11 {
            assert(next % 12 == index + 1 && next / 12 == semitone / 12);
            lemma_halved_ordered(top_octave(index), top_octave(index + 1), times);
        } else {
            assert(next % 12 == 0 && next / 12 == semitone / 12 + 1);
            assert(times >= 1);
            lemma_halved_once_more(top_octave(11), times - 1);
            lemma_halved_ordered(top_octave(11) / 2, top_octave(0), times - 1);
        }
    }
}

/// Frequency of the semitone `index` of the top octave.
fn top_octave_frequency(index: u8) -> (f: u32)
    requires
        index < 12,
    ensures
        f == top_octave(index as int),
{
    match index {
        0 => 1097337155,
        1 => 1162588218,
        2 => 1231719311,
        3 => 1304961152,
        4 => 1382558180,
        5 => 1464769368,
        6 => 1551869087,
        7 => 1644148025,
        8 => 1741914154,
        9 => 1845493760,
        10 => 1955232530,
        _ => 2071496706,
    }
}

/// Frequency in Q16.16 Hz of a whole semitone.
fn semitone_to_freq(semitone: i64) -> (f: u32)
    requires
        -0x1_0000_0000 <= semitone <= TOP_SEMITONE,
    ensures
        f == semitone_frequency(semitone as int),
{
    let (octave, index): (i64, i64) = if semitone >= 0 {
        (semitone / 12, semitone % 12)
    } else {
        let below: i64 = -semitone - 1;
        (-1 - below / 12, 11 - below % 12)
    };
    assert(octave == semitone as int / 12 && index == semitone as int % 12);
    let times: i64 = 11 - octave;
    let mut f: u32 = top_octave_frequency(index as u8);
    let mut done: i64 = 0;
    while done < times && f > 0
        invariant
            0 <= done <= times,
            halved(f as int, times - done) == semitone_frequency(semitone as int),
        decreases times - done,
    {
        f = f / 2;
        done = done + 1;
    }
    proof {
        if f == 0 {
            lemma_halved_ordered(0, 0, times - done);
        }
    }
    f
}

/// Frequency in Q16.16 Hz of a MIDI note transposed by `transpose` semitones
/// and detuned by `detune` Q16.16 cents.
pub fn midi_note_to_freq(midi_note: u8, transpose: i32, detune: i32) -> (f: u32)
    ensures
        f == pitch_frequency(note_pitch(midi_note, transpose, detune)),
        f < 0x8000_0000,
{
    let cents: i64 = detune as i64;
    let bend: i64 = if cents >= 0 {
        cents / 100
    } else {
        -((-cents) / 100)
    };
    let raw: i64 = (midi_note as i64 + transpose as i64) * 65536 + bend;
    let pitch: i64 = if raw > TOP_SEMITONE * 65536 {
        TOP_SEMITONE * 65536
    } else {
        raw
    };
    let (semitone, fraction): (i64, i64) = if pitch >= 0 {
        (pitch / 65536, pitch % 65536)
    } else {
        let below: i64 = -pitch - 1;
        (-1 - below / 65536, 65535 - below % 65536)
    };
    assert(semitone == pitch as int / 65536 && fraction == pitch as int % 65536);
    proof {
        lemma_semitone_frequency_bounds(semitone as int);
    }
    let low: u32 = semitone_to_freq(semitone);
    if fraction == 0 {
        low
    } else {
        let high: u32 = semitone_to_freq(semitone + 1);
        let rise: u64 = (high - low) as u64;
        assert(0 <= rise * fraction <= rise * 65536) by (nonlinear_arith)
            requires
                0 <= rise,
                0 <= fraction < 65536,
        ;
        assert((rise * fraction) / 65536 <= rise) by {
            vstd::arithmetic::div_mod::lemma_div_is_ordered(rise * fraction, rise * 65536, 65536);
        }
        low + ((rise * fraction as u64) / 65536) as u32
    }
}

/// The phase advance per sample of a tone of `frequency` Q16.16 Hz.
pub fn phase_step(frequency: u32, sample_rate: u32) -> (delta: u32)
    requires
        sample_rate > 0,
    ensures
        delta == phase_delta(frequency as int, sample_rate as int),
{
    let turns: u64 = (frequency as u64 * 65536) / sample_rate as u64;
    (turns % 0x1_0000_0000) as u32
}

} // verus!
