//! The ADSR envelope: its amplitude curve and its state machine.
//!
//! Durations are Q16.16 seconds, gains are Q16.16, time is a sample count.
//! A time of `n` samples at `rate` samples per second and a duration `d` are
//! compared as `n * 65536` against `d * rate`, which is exact.

use vstd::prelude::*;
use crate::fixed::{lemma_portion_bounds, lemma_portion_monotone, portion, ONE};
use crate::params::envelope_target::{amount_for, names_target, EnvelopeTargets, Target};

verus! {

/// Attack, decay and release times with the sustain level.
#[derive(Clone, Copy, Debug, PartialEq, Eq, Structural)]
pub struct Adsr {
    /// Q16.16 seconds.
    pub attack: u32,
    /// Q16.16 seconds.
    pub decay: u32,
    /// A gain in Q16.16, at most one.
    pub sustain: u32,
    /// Q16.16 seconds.
    pub release: u32,
}

impl Adsr {
    /// The sustain level is a gain of at most one.
    pub open spec fn wf(self) -> bool {
        self.sustain <= ONE
    }

    /// Well-formed, with attack, decay and release all longer than zero.
    pub open spec fn strictly_positive(self) -> bool {
        &&& self.wf()
        &&& self.attack > 0
        &&& self.decay > 0
        &&& self.release > 0
    }

    pub fn new(attack: u32, decay: u32, sustain: u32, release: u32) -> (adsr: Adsr)
        ensures
            adsr == (Adsr { attack, decay, sustain, release }),
    {
        Adsr { attack, decay, sustain, release }
    }

    pub fn attack(&self) -> (r: u32)
        ensures
            r == self.attack,
    {
        self.attack
    }

    pub fn decay(&self) -> (r: u32)
        ensures
            r == self.decay,
    {
        self.decay
    }

    pub fn sustain(&self) -> (r: u32)
        ensures
            r == self.sustain,
    {
        self.sustain
    }

    pub fn release(&self) -> (r: u32)
        ensures
            r == self.release,
    {
        self.release
    }
}

impl Default for Adsr {
    /// Ten milliseconds of attack and release around a full sustain level.
    fn default() -> (adsr: Adsr)
        ensures
            adsr == (Adsr { attack: 655, decay: 0, sustain: ONE, release: 655 }),
            adsr.wf(),
    {
        Adsr { attack: 655, decay: 0, sustain: ONE, release: 655 }
    }
}

/// Where a voice stands in its life.
#[derive(Clone, Copy, Debug, PartialEq, Eq, Structural)]
pub enum Stage {
    /// The key is down.
    Held,
    /// The key went up at the time `released_at`, in samples, when the
    /// envelope's gain was `gain_before`.
    Released { released_at: u64, gain_before: u32 },
    /// The release has run out.
    Finished,
}

/// The envelope's gain at one sample, and whether the envelope is over.
#[derive(Clone, Copy, Debug, PartialEq, Eq, Structural)]
pub struct Gain {
    pub gain: u32,
    pub finished: bool,
}

impl Gain {
    pub fn new(gain: u32) -> (g: Gain)
        ensures
            g == (Gain { gain, finished: false }),
    {
        Gain { gain, finished: false }
    }

    pub fn finished() -> (g: Gain)
        ensures
            g == (Gain { gain: 0, finished: true }),
    {
        Gain { gain: 0, finished: true }
    }
}

/// A time of `time` samples, in units of 1 / (65536 * rate) seconds.
pub open spec fn instant(time: int) -> int {
    time * 65536
}

/// A duration of `seconds` (Q16.16) at `rate` samples per second, in the unit
/// of `instant`.
pub open spec fn span(seconds: int, rate: int) -> int {
    seconds * rate
}

/// The gain of a held note: a linear rise from 0 to 1 over the attack, a
/// linear fall from 1 to the sustain level over the decay, then the sustain
/// level.
pub open spec fn held_gain(adsr: Adsr, time: int, rate: int) -> int {
    let now = instant(time);
    let attack = span(adsr.attack as int, rate);
    let decay = span(adsr.decay as int, rate);
    if now < attack {
        portion(now, ONE as int, attack)
    } else if now < attack + decay {
        ONE - portion(now - attack, ONE - adsr.sustain, decay)
    } else {
        adsr.sustain as int
    }
}

/// Time since the release, in the unit of `instant`; 0 for a time before it.
pub open spec fn since_release(released_at: int, time: int) -> int {
    if time >= released_at {
        instant(time - released_at)
    } else {
        0
    }
}

/// Whether a released note has run out: released at gain 0, or past the
/// release time.
pub open spec fn release_over(adsr: Adsr, released_at: int, gain_before: int, time: int, rate: int) -> bool {
    gain_before == 0 || since_release(released_at, time) > span(adsr.release as int, rate)
}

/// The gain of a released note that has not run out: a linear fall from
/// `gain_before` to 0 over the release time.
pub open spec fn released_gain(adsr: Adsr, released_at: int, gain_before: int, time: int, rate: int) -> int {
    let elapsed = since_release(released_at, time);
    if elapsed == 0 {
        gain_before
    } else {
        gain_before - portion(elapsed, gain_before, span(adsr.release as int, rate))
    }
}

/// The envelope curve: gain and end of the envelope at `time`.
pub open spec fn env_gain(adsr: Adsr, stage: Stage, time: int, rate: int) -> Gain {
    match stage {
        Stage::Held => Gain { gain: held_gain(adsr, time, rate) as u32, finished: false },
        Stage::Released { released_at, gain_before } => {
            if release_over(adsr, released_at as int, gain_before as int, time, rate) {
                Gain { gain: 0, finished: true }
            } else {
                Gain {
                    gain: released_gain(adsr, released_at as int, gain_before as int, time, rate) as u32,
                    finished: false,
                }
            }
        },
        Stage::Finished => Gain { gain: 0, finished: true },
    }
}

/// The held gain is a gain of at most one.
pub proof fn lemma_held_gain_bounds(adsr: Adsr, time: int, rate: int)
    requires
        adsr.wf(),
        0 <= time,
        0 <= rate,
    ensures
        0 <= held_gain(adsr, time, rate) <= ONE,
{
    let now = instant(time);
    let attack = span(adsr.attack as int, rate);
    let decay = span(adsr.decay as int, rate);
    assert(0 <= attack && 0 <= decay) by (nonlinear_arith)
        requires
            attack == adsr.attack * rate,
            decay == adsr.decay * rate,
            0 <= rate,
    ;
    if now < attack {
        lemma_portion_bounds(now, ONE as int, attack);
    } else if now < attack + decay {
        lemma_portion_bounds(now - attack, ONE - adsr.sustain, decay);
    }
}

/// The released gain lies between 0 and the gain at the release.
pub proof fn lemma_released_gain_bounds(adsr: Adsr, released_at: int, gain_before: int, time: int, rate: int)
    requires
        0 <= gain_before,
        0 <= rate,
        !release_over(adsr, released_at, gain_before, time, rate),
    ensures
        0 <= released_gain(adsr, released_at, gain_before, time, rate) <= gain_before,
{
    let elapsed = since_release(released_at, time);
    if elapsed != 0 {
        lemma_portion_bounds(elapsed, gain_before, span(adsr.release as int, rate));
    }
}

/// The envelope's gain is at most one, or at most the gain at the release.
pub proof fn lemma_env_gain_bounds(adsr: Adsr, stage: Stage, time: int, rate: int)
    requires
        adsr.wf(),
        0 <= time,
        0 <= rate,
    ensures
        0 <= env_gain(adsr, stage, time, rate).gain,
        env_gain(adsr, stage, time, rate).gain <= ONE || (stage matches Stage::Released {
            gain_before,
            ..
        } && env_gain(adsr, stage, time, rate).gain <= gain_before),
{
    match stage {
        Stage::Held => {
            lemma_held_gain_bounds(adsr, time, rate);
        },
        Stage::Released { released_at, gain_before } => {
            if !release_over(adsr, released_at as int, gain_before as int, time, rate) {
                lemma_released_gain_bounds(
                    adsr,
                    released_at as int,
                    gain_before as int,
                    time,
                    rate,
                );
            }
        },
        Stage::Finished => {},
    }
}

/// Evaluates the envelope curve at `time` samples after the note began.
pub fn get_env_gain(adsr: Adsr, stage: &Stage, time: u64, sample_rate: u32) -> (g: Gain)
    requires
        adsr.wf(),
    ensures
        g == env_gain(adsr, *stage, time as int, sample_rate as int),
        g.gain <= ONE || (*stage matches Stage::Released { gain_before, .. } && g.gain <= gain_before),
{
    let rate: u128 = sample_rate as u128;
    match *stage {
        Stage::Held => {
            proof {
                lemma_held_gain_bounds(adsr, time as int, sample_rate as int);
            }
            let now: u128 = time as u128 * 65536;
            assert(adsr.attack * sample_rate <= 0xffff_ffff * 0xffff_ffff && adsr.decay
                * sample_rate <= 0xffff_ffff * 0xffff_ffff) by (nonlinear_arith)
                requires
                    adsr.attack <= 0xffff_ffff,
                    adsr.decay <= 0xffff_ffff,
                    sample_rate <= 0xffff_ffff,
            ;
            let attack: u128 = adsr.attack as u128 * rate;
            let decay: u128 = adsr.decay as u128 * rate;
            if now < attack {
                Gain::new(((now * 65536) / attack) as u32)
            } else if now < attack + decay {
                let fall: u128 = (ONE - adsr.sustain) as u128;
                assert((now - attack) * fall <= 0xffff_ffff_ffff_ffff_ffff * 65536)
                    by (nonlinear_arith)
                    requires
                        0 <= now - attack <= 0xffff_ffff_ffff_ffff_ffff,
                        0 <= fall <= 65536,
                ;
                Gain::new(ONE - (((now - attack) * fall) / decay) as u32)
            } else {
                Gain::new(adsr.sustain)
            }
        },
        Stage::Released { released_at, gain_before } => {
            let elapsed: u128 = if time >= released_at {
                (time - released_at) as u128 * 65536
            } else {
                0
            };
            assert(adsr.release * sample_rate <= 0xffff_ffff * 0xffff_ffff) by (nonlinear_arith)
                requires
                    adsr.release <= 0xffff_ffff,
                    sample_rate <= 0xffff_ffff,
            ;
            let release: u128 = adsr.release as u128 * rate;
            if gain_before == 0 || elapsed > release {
                Gain::finished()
            } else if elapsed == 0 {
                Gain::new(gain_before)
            } else {
                proof {
                    lemma_released_gain_bounds(
                        adsr,
                        released_at as int,
                        gain_before as int,
                        time as int,
                        sample_rate as int,
                    );
                }
                assert(elapsed * gain_before <= 0xffff_ffff_ffff_ffff_ffff * 0xffff_ffff)
                    by (nonlinear_arith)
                    requires
                        0 <= elapsed <= 0xffff_ffff_ffff_ffff_ffff,
                        0 <= gain_before <= 0xffff_ffff,
                ;
                Gain::new(gain_before - ((elapsed * gain_before as u128) / release) as u32)
            }
        },
        Stage::Finished => Gain::finished(),
    }
}

/// A held note starts at gain 0, its gain never falls during the attack,
/// lies within one unit below the straight line from 0 to 1 over the attack
/// time, and is 1 at the moment the attack ends.
pub proof fn law_attack_rises_from_zero_to_one(adsr: Adsr, rate: int, t1: int, t2: int)
    requires
        adsr.strictly_positive(),
        0 < rate,
        0 <= t1 <= t2,
        instant(t2) <= span(adsr.attack as int, rate),
    ensures
        held_gain(adsr, 0, rate) == 0,
        held_gain(adsr, t1, rate) <= held_gain(adsr, t2, rate),
        instant(t2) < span(adsr.attack as int, rate) ==> {
            let gain = held_gain(adsr, t2, rate);
            gain * span(adsr.attack as int, rate) <= ONE * instant(t2) < gain * span(
                adsr.attack as int,
                rate,
            ) + span(adsr.attack as int, rate)
        },
        instant(t2) == span(adsr.attack as int, rate) ==> held_gain(adsr, t2, rate) == ONE,
{
    let attack = span(adsr.attack as int, rate);
    let decay = span(adsr.decay as int, rate);
    assert(0 < attack && 0 < decay) by (nonlinear_arith)
        requires
            attack == adsr.attack * rate,
            decay == adsr.decay * rate,
            0 < rate,
            0 < adsr.attack,
            0 < adsr.decay,
    ;
    lemma_portion_bounds(0, ONE as int, attack);
    lemma_held_gain_bounds(adsr, t1, rate);
    if instant(t2) < attack {
        lemma_portion_monotone(instant(t1), instant(t2), ONE as int, attack);
        let now = instant(t2);
        let q = (now * ONE) / attack;
        let r = (now * ONE) % attack;
        vstd::arithmetic::div_mod::lemma_fundamental_div_mod(now * ONE, attack);
        vstd::arithmetic::div_mod::lemma_mod_bound(now * ONE, attack);
        assert(q * attack <= ONE * now < q * attack + attack) by (nonlinear_arith)
            requires
                now * ONE == attack * q + r,
                0 <= r < attack,
        ;
    } else {
        lemma_portion_bounds(0, ONE - adsr.sustain, decay);
    }
}

/// A note released at a gain above 0 starts its release at that gain, never
/// rises during it, lies within one unit above the straight line from that
/// gain to 0 over the release time, is at gain 0 when the release time has
/// passed, and is over exactly from the first sample after that.
pub proof fn law_release_falls_to_zero(
    adsr: Adsr,
    rate: int,
    released_at: int,
    gain_before: int,
    t1: int,
    t2: int,
)
    requires
        adsr.strictly_positive(),
        0 < rate,
        0 < gain_before,
        0 <= released_at <= t1 <= t2,
    ensures
        released_gain(adsr, released_at, gain_before, released_at, rate) == gain_before,
        !release_over(adsr, released_at, gain_before, t2, rate) ==> {
            &&& !release_over(adsr, released_at, gain_before, t1, rate)
            &&& 0 <= released_gain(adsr, released_at, gain_before, t2, rate)
                <= released_gain(adsr, released_at, gain_before, t1, rate) <= gain_before
        },
        !release_over(adsr, released_at, gain_before, t2, rate) ==> {
            let left = span(adsr.release as int, rate) - instant(t2 - released_at);
            let gain = released_gain(adsr, released_at, gain_before, t2, rate);
            gain_before * left <= gain * span(adsr.release as int, rate) < gain_before * left
                + span(adsr.release as int, rate)
        },
        instant(t2 - released_at) == span(adsr.release as int, rate) ==> released_gain(
            adsr,
            released_at,
            gain_before,
            t2,
            rate,
        ) == 0,
        release_over(adsr, released_at, gain_before, t2, rate) <==> instant(t2 - released_at)
            > span(adsr.release as int, rate),
{
    let release = span(adsr.release as int, rate);
    assert(0 < release) by (nonlinear_arith)
        requires
            release == adsr.release * rate,
            0 < rate,
            0 < adsr.release,
    ;
    let e1 = since_release(released_at, t1);
    let e2 = since_release(released_at, t2);
    if !release_over(adsr, released_at, gain_before, t2, rate) {
        let gain = released_gain(adsr, released_at, gain_before, t2, rate);
        if e2 == 0 {
            assert(gain_before * (release - e2) == gain * release);
        } else {
            let q = (e2 * gain_before) / release;
            let r = (e2 * gain_before) % release;
            vstd::arithmetic::div_mod::lemma_fundamental_div_mod(e2 * gain_before, release);
            vstd::arithmetic::div_mod::lemma_mod_bound(e2 * gain_before, release);
            assert(gain_before * (release - e2) <= (gain_before - q) * release < gain_before * (
            release - e2) + release) by (nonlinear_arith)
                requires
                    e2 * gain_before == release * q + r,
                    0 <= r < release,
            ;
        }
        lemma_released_gain_bounds(adsr, released_at, gain_before, t1, rate);
        lemma_released_gain_bounds(adsr, released_at, gain_before, t2, rate);
        lemma_portion_monotone(e1, e2, gain_before, release);
        lemma_portion_bounds(e1, gain_before, release);
    }
    if e2 == release {
        lemma_portion_bounds(e2, gain_before, release);
    }
}

/// An envelope: the ADSR settings it follows, its clock and its stage.
#[derive(Clone, Copy, Debug, PartialEq, Eq, Structural)]
pub struct Envelope {
    pub adsr: Adsr,
    /// Samples per second.
    pub sample_rate: u32,
    /// Samples since the note began.
    pub time: u64,
    /// The gain that `get_gain` returned last.
    pub last_volume: u32,
    pub stage: Stage,
}

/// The clock one sample later; it stops at the largest value it can hold.
pub open spec fn next_time(time: u64) -> u64 {
    if time < u64::MAX {
        (time + 1) as u64
    } else {
        time
    }
}

impl Envelope {
    pub open spec fn wf(self) -> bool {
        self.adsr.wf()
    }

    /// The gain that the next call of `get_gain` returns.
    pub open spec fn current(self) -> Gain {
        env_gain(self.adsr, self.stage, self.time as int, self.sample_rate as int)
    }

    /// Whether the next call of `get_gain` is the one on which the envelope
    /// ends.
    pub open spec fn finishes_now(self) -> bool {
        self.current().finished && self.stage != Stage::Finished
    }

    /// The envelope after one call of `get_gain`.
    pub open spec fn stepped(self) -> Envelope {
        Envelope {
            adsr: self.adsr,
            sample_rate: self.sample_rate,
            time: next_time(self.time),
            last_volume: self.current().gain,
            stage: if self.current().finished {
                Stage::Finished
            } else {
                self.stage
            },
        }
    }

    /// The envelope after `calls` calls of `get_gain`.
    pub open spec fn after(self, calls: nat) -> Envelope
        decreases calls,
    {
        if calls == 0 {
            self
        } else {
            self.after((calls - 1) as nat).stepped()
        }
    }

    /// The gain from which a release at this moment starts: the gain that
    /// was returned last, or, where none has been returned yet, the gain of
    /// the curve at the current time.
    pub open spec fn gain_at_release(self) -> u32 {
        if self.time == 0 {
            self.current().gain
        } else {
            self.last_volume
        }
    }

    /// The envelope after `release`: released at the current time, or as it
    /// was if it has ended.
    pub open spec fn released(self) -> Envelope {
        if self.stage == Stage::Finished {
            self
        } else {
            Envelope {
                stage: Stage::Released {
                    released_at: self.time,
                    gain_before: self.gain_at_release(),
                },
                ..self
            }
        }
    }

    /// A held envelope at time 0.
    pub fn new(adsr: Adsr, sample_rate: u32) -> (envelope: Envelope)
        ensures
            envelope == (Envelope {
                adsr,
                sample_rate,
                time: 0,
                last_volume: 0,
                stage: Stage::Held,
            }),
    {
        Envelope { adsr, sample_rate, time: 0, last_volume: 0, stage: Stage::Held }
    }

    /// Starts the release from the current time and the last gain returned;
    /// before the first gain has been returned, from the gain of the curve at
    /// the current time. An envelope that has ended stays ended.
    pub fn release(&mut self)
        requires
            old(self).wf(),
        ensures
            *final(self) == old(self).released(),
    {
        if matches!(self.stage, Stage::Finished) {
            return ;
        }
        let gain_before = if self.time == 0 {
            get_env_gain(self.adsr, &self.stage, self.time, self.sample_rate).gain
        } else {
            self.last_volume
        };
        self.stage = Stage::Released { released_at: self.time, gain_before };
    }

    /// Returns the gain at the current time and whether the envelope ended on
    /// this call, then advances the clock by one sample.
    pub fn get_gain(&mut self) -> (r: (u32, bool))
        requires
            old(self).wf(),
        ensures
            *final(self) == old(self).stepped(),
            r.0 == old(self).current().gain,
            r.1 == old(self).finishes_now(),
            r.0 <= ONE || (old(self).stage matches Stage::Released { gain_before, .. } && r.0
                <= gain_before),
    {
        let gain = get_env_gain(self.adsr, &self.stage, self.time, self.sample_rate);
        let just_finished = gain.finished && !matches!(self.stage, Stage::Finished);
        if gain.finished {
            self.stage = Stage::Finished;
        }
        if self.time < u64::MAX {
            self.time = self.time + 1;
        }
        self.last_volume = gain.gain;
        (gain.gain, just_finished)
    }

    pub fn set_adsr(&mut self, adsr: Adsr)
        ensures
            *final(self) == (Envelope { adsr, ..*old(self) }),
    {
        self.adsr = adsr;
    }
}

/// The shape of a released envelope after `calls` calls of `get_gain`: the
/// clock has advanced by `calls`, and the stage is `Finished` exactly when an
/// earlier call came past the release time.
proof fn lemma_released_after(env: Envelope, calls: nat)
    requires
        env.stage is Released,
        env.time + calls <= u64::MAX,
    ensures
        env.after(calls).adsr == env.adsr,
        env.after(calls).sample_rate == env.sample_rate,
        env.after(calls).time == env.time + calls,
        env.after(calls).stage == (if calls > 0 && env.after((calls - 1) as nat).current().finished {
            Stage::Finished
        } else {
            env.stage
        }),
        calls > 0 && env.after((calls - 1) as nat).stage == Stage::Finished ==> env.after(
            calls,
        ).stage == Stage::Finished,
    decreases calls,
{
    if calls > 0 {
        lemma_released_after(env, (calls - 1) as nat);
    }
}

/// Of the calls of `get_gain` on an envelope released at a gain above 0, the
/// one that reports the end is the first whose time lies past the release
/// time: none before it reports the end, and none after it.
pub proof fn law_release_ends_once(env: Envelope, calls: nat)
    requires
        env.wf(),
        env.stage matches Stage::Released { released_at, gain_before } && gain_before > 0
            && released_at <= env.time,
        env.time + calls <= u64::MAX,
    ensures
        env.after(calls).finishes_now() <==> {
            &&& instant(env.time + calls - env.stage->released_at) > span(
                env.adsr.release as int,
                env.sample_rate as int,
            )
            &&& (calls == 0 || instant(env.time + calls - 1 - env.stage->released_at) <= span(
                env.adsr.release as int,
                env.sample_rate as int,
            ))
        },
    decreases calls,
{
    lemma_released_after(env, calls);
    if calls > 0 {
        law_release_ends_once(env, (calls - 1) as nat);
        lemma_released_after(env, (calls - 1) as nat);
        let before = env.after((calls - 1) as nat);
        if before.stage == Stage::Finished {
            lemma_ended_before(env, (calls - 1) as nat);
        }
    }
}

/// Once a released envelope is `Finished`, its clock is past the release
/// time.
proof fn lemma_ended_before(env: Envelope, calls: nat)
    requires
        env.stage matches Stage::Released { released_at, gain_before } && gain_before > 0
            && released_at <= env.time,
        env.time + calls <= u64::MAX,
        env.after(calls).stage == Stage::Finished,
    ensures
        calls > 0,
        instant(env.time + calls - 1 - env.stage->released_at) > span(
            env.adsr.release as int,
            env.sample_rate as int,
        ),
    decreases calls,
{
    lemma_released_after(env, calls);
    if calls > 0 {
        lemma_released_after(env, (calls - 1) as nat);
        let before = env.after((calls - 1) as nat);
        if before.stage == Stage::Finished {
            lemma_ended_before(env, (calls - 1) as nat);
        }
    }
}

/// A held envelope that is released before its first gain was returned
/// starts its release at the gain that the curve has at time 0. Without an
/// attack that is 1 where there is a decay and the sustain level where there
/// is none; where it is above 0 the released envelope returns it next and has
/// not ended.
pub proof fn law_release_before_first_sample(envelope: Envelope)
    requires
        envelope.wf(),
        envelope.stage == Stage::Held,
        envelope.time == 0,
    ensures
        envelope.released().stage == (Stage::Released {
            released_at: 0,
            gain_before: held_gain(envelope.adsr, 0, envelope.sample_rate as int) as u32,
        }),
        0 <= held_gain(envelope.adsr, 0, envelope.sample_rate as int) <= ONE,
        envelope.adsr.attack == 0 ==> held_gain(envelope.adsr, 0, envelope.sample_rate as int) == (
        if span(envelope.adsr.decay as int, envelope.sample_rate as int) > 0 {
            ONE
        } else {
            envelope.adsr.sustain
        }),
        held_gain(envelope.adsr, 0, envelope.sample_rate as int) > 0 ==> envelope.released().current()
            == (Gain {
            gain: held_gain(envelope.adsr, 0, envelope.sample_rate as int) as u32,
            finished: false,
        }),
{
    let rate = envelope.sample_rate as int;
    lemma_held_gain_bounds(envelope.adsr, 0, rate);
    let decay = span(envelope.adsr.decay as int, rate);
    assert(0 <= decay) by (nonlinear_arith)
        requires
            decay == envelope.adsr.decay * rate,
            0 <= rate,
            0 <= envelope.adsr.decay,
    ;
    if envelope.adsr.attack == 0 {
        assert(span(envelope.adsr.attack as int, rate) == 0) by (nonlinear_arith)
            requires
                envelope.adsr.attack == 0,
        ;
        if decay > 0 {
            lemma_portion_bounds(0, ONE - envelope.adsr.sustain, decay);
        }
    }
}

/// The settings of one envelope slot as plain values.
#[verifier::ext_equal]
pub struct EnvelopeModel {
    pub adsr: Adsr,
    /// The targets with their depths, in the order in which they were added.
    pub targets: Seq<(Target, u32)>,
}

impl EnvelopeModel {
    pub open spec fn wf(self) -> bool {
        self.adsr.wf()
    }

    /// Whether the envelope shapes the oscillator `oscillator_id`: it names
    /// all oscillators, or that one.
    pub open spec fn shapes(self, oscillator_id: usize) -> bool {
        names_target(self.targets, Target::AllOscillators) || names_target(
            self.targets,
            Target::Oscillator(oscillator_id),
        )
    }
}

/// Every envelope's sustain level is at most one.
pub open spec fn envelopes_wf(envelopes: Seq<EnvelopeModel>) -> bool {
    forall|i: int| 0 <= i < envelopes.len() ==> (#[trigger] envelopes[i]).wf()
}

/// The settings of one envelope slot: its ADSR values and what it modulates.
#[derive(Debug)]
pub struct EnvelopeProperties {
    pub adsr: Adsr,
    pub targets: EnvelopeTargets,
}

impl View for EnvelopeProperties {
    type V = EnvelopeModel;

    open spec fn view(&self) -> EnvelopeModel {
        EnvelopeModel { adsr: self.adsr, targets: self.targets@ }
    }
}

/// The settings of a row of envelope slots as plain values.
pub open spec fn envelope_models(envelopes: Seq<EnvelopeProperties>) -> Seq<EnvelopeModel> {
    Seq::new(envelopes.len(), |i: int| envelopes[i]@)
}

impl EnvelopeProperties {
    pub open spec fn wf(self) -> bool {
        self@.wf()
    }

    pub fn new(adsr: Adsr, targets: EnvelopeTargets) -> (properties: EnvelopeProperties)
        ensures
            properties.adsr == adsr,
            properties.targets == targets,
            properties@ == (EnvelopeModel { adsr, targets: targets@ }),
    {
        EnvelopeProperties { adsr, targets }
    }

    /// The depths of all of the envelope's entries that name `target`, added
    /// up.
    pub fn get_amount_for(&self, target: Target) -> (amount: u128)
        ensures
            amount == amount_for(self.targets@, target),
    {
        self.targets.get_amount_for(target)
    }

    /// Whether the envelope names `target`.
    pub fn has_target(&self, target: Target) -> (found: bool)
        ensures
            found == names_target(self.targets@, target),
    {
        self.targets.has_target(target)
    }
}

impl Clone for EnvelopeProperties {
    fn clone(&self) -> (copy: EnvelopeProperties)
        ensures
            copy@ == self@,
    {
        EnvelopeProperties { adsr: self.adsr, targets: self.targets.clone() }
    }
}

impl Default for EnvelopeProperties {
    /// The default ADSR values on the first oscillator.
    fn default() -> (properties: EnvelopeProperties)
        ensures
            properties@ == (EnvelopeModel {
                adsr: Adsr { attack: 655, decay: 0, sustain: ONE, release: 655 },
                targets: seq![(Target::Oscillator(0), ONE)],
            }),
            properties.wf(),
    {
        EnvelopeProperties { adsr: Adsr::default(), targets: EnvelopeTargets::default() }
    }
}

} // verus!
