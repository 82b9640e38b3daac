//! Voice storage: the table of held voices, the pool of released notes, and
//! the parameter values that they all read.

use vstd::prelude::*;
use crate::fixed::{clamped, ONE};
use crate::process::envelope::{envelope_models, envelopes_wf, EnvelopeModel, EnvelopeProperties};
use crate::process::note::{lemma_note_sample_bounds, Note, OscillatorProperties};
use crate::utils::cache::{default_settings, CacheModel, ParamCache};
use crate::utils::fixed_map::{
    after_insert,
    after_remove,
    keys_distinct,
    replaced_by_insert,
    taken_by_remove,
    FixedMap,
    Voice,
};
use crate::{ENVELOPE_AMOUNT, OSCILLATOR_AMOUNT};

verus! {

/// The number of voices that can be held at once.
pub const POLYPHONY: usize = 64;

/// What a key of the instrument did.
#[derive(Clone, Copy, Debug, PartialEq, Eq, Structural)]
pub enum NoteEvent {
    /// The key `note` went down with a velocity in Q16.16.
    NoteOn { note: u8, velocity: u32 },
    /// The key `note` went up.
    NoteOff { note: u8 },
    /// Anything else; it changes nothing.
    Other,
}

/// A key goes down with a velocity of at most one.
pub open spec fn event_ok(event: NoteEvent) -> bool {
    event matches NoteEvent::NoteOn { velocity, .. } ==> velocity <= ONE
}

/// A well-formed note on one of the oscillator slots.
pub open spec fn note_ok(note: Note) -> bool {
    note.wf() && note.oscillator_id < OSCILLATOR_AMOUNT
}

/// Every note of the sequence is well-formed and on an oscillator slot.
pub open spec fn notes_ok(notes: Seq<Note>) -> bool {
    forall|j: int| 0 <= j < notes.len() ==> note_ok(#[trigger] notes[j])
}

/// The voice that a key going down starts: one fresh note on each oscillator
/// slot.
pub open spec fn fresh_voice(midi_note: u8, velocity: u32, sample_rate: u32) -> Voice {
    [
        Note::fresh(midi_note, velocity, sample_rate, 0),
        Note::fresh(midi_note, velocity, sample_rate, 1),
        Note::fresh(midi_note, velocity, sample_rate, 2),
        Note::fresh(midi_note, velocity, sample_rate, 3),
    ]
}

/// Every note of every voice is well-formed and on an oscillator slot.
pub open spec fn voices_ok(voices: Seq<Voice>) -> bool {
    forall|k: int| 0 <= k < voices.len() ==> notes_ok((#[trigger] voices[k])@)
}

/// A voice after the release of every one of its notes under the envelope
/// settings `envelopes`.
pub open spec fn released_voice(voice: Voice, envelopes: Seq<EnvelopeModel>) -> Voice {
    [
        voice@[0].released(envelopes),
        voice@[1].released(envelopes),
        voice@[2].released(envelopes),
        voice@[3].released(envelopes),
    ]
}

/// Whether the envelope of every note of the voice has ended.
pub open spec fn voice_ended(voice: Voice) -> bool {
    forall|j: int| 0 <= j < OSCILLATOR_AMOUNT ==> (#[trigger] voice@[j]).ended()
}

/// The next sample of a note under the settings of its oscillator slot.
pub open spec fn note_sample(
    note: Note,
    oscillators: Seq<OscillatorProperties>,
    envelopes: Seq<EnvelopeModel>,
) -> int {
    note.sample(oscillators[note.oscillator_id as int], envelopes)
}

/// A note after its next sample.
pub open spec fn step_note(
    note: Note,
    oscillators: Seq<OscillatorProperties>,
    envelopes: Seq<EnvelopeModel>,
) -> Note {
    note.stepped(oscillators[note.oscillator_id as int], envelopes)
}

/// The next samples of the notes, added up.
pub open spec fn notes_sample(
    notes: Seq<Note>,
    oscillators: Seq<OscillatorProperties>,
    envelopes: Seq<EnvelopeModel>,
) -> int
    decreases notes.len(),
{
    if notes.len() == 0 {
        0
    } else {
        notes_sample(notes.drop_last(), oscillators, envelopes) + note_sample(
            notes.last(),
            oscillators,
            envelopes,
        )
    }
}

/// A voice after its next sample.
pub open spec fn step_voice(
    voice: Voice,
    oscillators: Seq<OscillatorProperties>,
    envelopes: Seq<EnvelopeModel>,
) -> Voice {
    [
        step_note(voice@[0], oscillators, envelopes),
        step_note(voice@[1], oscillators, envelopes),
        step_note(voice@[2], oscillators, envelopes),
        step_note(voice@[3], oscillators, envelopes),
    ]
}

/// The next samples of all notes of the held voices, added up.
pub open spec fn held_sample(
    held: Seq<(u8, Voice)>,
    oscillators: Seq<OscillatorProperties>,
    envelopes: Seq<EnvelopeModel>,
) -> int
    decreases held.len(),
{
    if held.len() == 0 {
        0
    } else {
        held_sample(held.drop_last(), oscillators, envelopes) + notes_sample(
            held.last().1@,
            oscillators,
            envelopes,
        )
    }
}

/// The held voices after their next sample.
pub open spec fn step_held(
    held: Seq<(u8, Voice)>,
    oscillators: Seq<OscillatorProperties>,
    envelopes: Seq<EnvelopeModel>,
) -> Seq<(u8, Voice)> {
    Seq::new(held.len(), |i: int| (held[i].0, step_voice(held[i].1, oscillators, envelopes)))
}

/// The next samples of all notes of the released voices, added up.
pub open spec fn voices_sample(
    voices: Seq<Voice>,
    oscillators: Seq<OscillatorProperties>,
    envelopes: Seq<EnvelopeModel>,
) -> int
    decreases voices.len(),
{
    if voices.len() == 0 {
        0
    } else {
        voices_sample(voices.drop_last(), oscillators, envelopes) + notes_sample(
            voices.last()@,
            oscillators,
            envelopes,
        )
    }
}

/// The released voices after their next sample.
pub open spec fn step_voices(
    voices: Seq<Voice>,
    oscillators: Seq<OscillatorProperties>,
    envelopes: Seq<EnvelopeModel>,
) -> Seq<Voice> {
    Seq::new(voices.len(), |k: int| step_voice(voices[k], oscillators, envelopes))
}

/// The voices of which some note's envelope has not ended, in their order.
pub open spec fn unfinished(voices: Seq<Voice>) -> Seq<Voice>
    decreases voices.len(),
{
    if voices.len() == 0 {
        voices
    } else if voice_ended(voices.last()) {
        unfinished(voices.drop_last())
    } else {
        unfinished(voices.drop_last()).push(voices.last())
    }
}

/// What a voice storage holds.
#[verifier::ext_equal]
pub struct StorageModel {
    /// The held voices by note number, in the table's order.
    pub held: Seq<(u8, Voice)>,
    /// The released voices that are still kept, oldest first.
    pub released: Seq<Voice>,
    /// The settings of each oscillator slot.
    pub oscillators: Seq<OscillatorProperties>,
    /// The settings of each envelope slot.
    pub envelopes: Seq<EnvelopeModel>,
    /// How many voices were dropped because the table was full.
    pub dropped: u64,
}

/// A count one higher; it stops at the largest value it can hold.
pub open spec fn counted(count: u64) -> u64 {
    if count < u64::MAX {
        (count + 1) as u64
    } else {
        count
    }
}

impl StorageModel {
    /// No note number is held twice, no more than `POLYPHONY` voices are
    /// held, every note is well-formed, and every slot has its settings.
    pub open spec fn wf(self) -> bool {
        &&& keys_distinct(self.held)
        &&& self.held.len() <= POLYPHONY
        &&& forall|i: int| 0 <= i < self.held.len() ==> notes_ok((#[trigger] self.held[i]).1@)
        &&& voices_ok(self.released)
        &&& self.oscillators.len() == OSCILLATOR_AMOUNT
        &&& self.envelopes.len() == ENVELOPE_AMOUNT
        &&& envelopes_wf(self.envelopes)
    }

    /// A key goes down: a fresh voice enters the table; the voice that it
    /// replaces is released and joins the pool. Where the table is full the
    /// voice is dropped and counted.
    pub open spec fn note_on(self, note: u8, velocity: u32, sample_rate: u32) -> StorageModel {
        StorageModel {
            dropped: if self.held.len() >= POLYPHONY {
                counted(self.dropped)
            } else {
                self.dropped
            },
            held: after_insert(
                self.held,
                POLYPHONY as int,
                note,
                fresh_voice(note, velocity, sample_rate),
            ),
            released: match replaced_by_insert(self.held, POLYPHONY as int, note) {
                Some(voice) => self.released.push(released_voice(voice, self.envelopes)),
                None => self.released,
            },
            ..self
        }
    }

    /// A key goes up: its voice leaves the table, is released and joins the
    /// pool.
    pub open spec fn note_off(self, note: u8) -> StorageModel {
        StorageModel {
            held: after_remove(self.held, note),
            released: match taken_by_remove(self.held, note) {
                Some(voice) => self.released.push(released_voice(voice, self.envelopes)),
                None => self.released,
            },
            ..self
        }
    }

    /// The storage after an event.
    pub open spec fn handle(self, event: NoteEvent, sample_rate: u32) -> StorageModel {
        match event {
            NoteEvent::NoteOn { note, velocity } => self.note_on(note, velocity, sample_rate),
            NoteEvent::NoteOff { note } => self.note_off(note),
            NoteEvent::Other => self,
        }
    }

    /// The storage with the settings of `cache` in every slot.
    pub open spec fn updated(self, cache: CacheModel) -> StorageModel {
        StorageModel { oscillators: cache.oscillators, envelopes: cache.envelopes, ..self }
    }

    /// The storage without the released voices of which every note's
    /// envelope has ended.
    pub open spec fn pruned(self) -> StorageModel {
        StorageModel { released: unfinished(self.released), ..self }
    }

    /// The next samples of all notes, held and released, added up.
    pub open spec fn mix(self) -> int {
        held_sample(self.held, self.oscillators, self.envelopes) + voices_sample(
            self.released,
            self.oscillators,
            self.envelopes,
        )
    }

    /// The storage after every note's next sample.
    pub open spec fn stepped(self) -> StorageModel {
        StorageModel {
            held: step_held(self.held, self.oscillators, self.envelopes),
            released: step_voices(self.released, self.oscillators, self.envelopes),
            ..self
        }
    }
}

/// The storage after a run of events, in their order.
pub open spec fn handle_all(storage: StorageModel, events: Seq<NoteEvent>, sample_rate: u32) -> StorageModel
    decreases events.len(),
{
    if events.len() == 0 {
        storage
    } else {
        handle_all(storage, events.drop_last(), sample_rate).handle(events.last(), sample_rate)
    }
}

/// The sum of the samples of `notes` lies within 2^32 per note.
pub proof fn lemma_notes_sample_bounds(
    notes: Seq<Note>,
    oscillators: Seq<OscillatorProperties>,
    envelopes: Seq<EnvelopeModel>,
)
    requires
        notes_ok(notes),
        oscillators.len() == OSCILLATOR_AMOUNT,
        envelopes_wf(envelopes),
    ensures
        -(notes.len() * 0x1_0000_0000) <= notes_sample(notes, oscillators, envelopes) <= notes.len()
            * 0x1_0000_0000,
    decreases notes.len(),
{
    if notes.len() > 0 {
        lemma_notes_sample_bounds(notes.drop_last(), oscillators, envelopes);
        let note = notes.last();
        assert(note_ok(note));
        lemma_note_sample_bounds(note, oscillators[note.oscillator_id as int], envelopes);
    }
}

/// A voice of well-formed notes is one after its next sample.
pub proof fn lemma_stepped_voice_ok(
    voice: Voice,
    oscillators: Seq<OscillatorProperties>,
    envelopes: Seq<EnvelopeModel>,
)
    requires
        notes_ok(voice@),
        envelopes_wf(envelopes),
    ensures
        notes_ok(step_voice(voice, oscillators, envelopes)@),
{
    let after = step_voice(voice, oscillators, envelopes);
    assert forall|j: int| 0 <= j < after@.len() implies note_ok(#[trigger] after@[j]) by {
        let note = voice@[j];
        assert(note_ok(note));
        lemma_note_sample_bounds(note, oscillators[note.oscillator_id as int], envelopes);
    }
}

/// Whether the envelope of every note of the voice has ended.
fn voice_is_finished(voice: &Voice) -> (finished: bool)
    ensures
        finished == voice_ended(*voice),
{
    let mut j: usize = 0;
    while j < OSCILLATOR_AMOUNT
        invariant
            j <= OSCILLATOR_AMOUNT,
            forall|k: int| 0 <= k < j ==> (#[trigger] voice@[k]).ended(),
        decreases OSCILLATOR_AMOUNT - j,
    {
        if !voice[j].is_finished() {
            return false;
        }
        j = j + 1;
    }
    true
}

/// Produces the next sample of every note of a voice and returns their sum.
fn voice_get_sample(
    voice: &mut Voice,
    oscillators: &[OscillatorProperties; OSCILLATOR_AMOUNT],
    envelopes: &[EnvelopeProperties; ENVELOPE_AMOUNT],
) -> (sum: i64)
    requires
        notes_ok(old(voice)@),
        envelopes_wf(envelope_models(envelopes@)),
    ensures
        sum == notes_sample(old(voice)@, oscillators@, envelope_models(envelopes@)),
        *final(voice) == step_voice(*old(voice), oscillators@, envelope_models(envelopes@)),
        notes_ok(final(voice)@),
        -0x4_0000_0000 <= sum <= 0x4_0000_0000,
{
    let ghost before = voice@;
    let mut sum: i64 = 0;
    let mut j: usize = 0;
    while j < OSCILLATOR_AMOUNT
        invariant
            j <= OSCILLATOR_AMOUNT,
            before.len() == OSCILLATOR_AMOUNT,
            notes_ok(before),
            envelopes_wf(envelope_models(envelopes@)),
            forall|k: int| 0 <= k < j ==> voice@[k] == step_note(before[k], oscillators@, envelope_models(envelopes@)),
            forall|k: int| j <= k < OSCILLATOR_AMOUNT ==> voice@[k] == before[k],
            sum == notes_sample(before.take(j as int), oscillators@, envelope_models(envelopes@)),
            -(j * 0x1_0000_0000) <= sum <= j * 0x1_0000_0000,
        decreases OSCILLATOR_AMOUNT - j,
    {
        assert(note_ok(before[j as int]));
        assert(before.take(j + 1).drop_last() == before.take(j as int));
        let id = voice[j].oscillator_id;
        let sample = voice[j].get_sample(&oscillators[id], envelopes);
        sum = sum + sample;
        j = j + 1;
    }
    proof {
        assert(before.take(OSCILLATOR_AMOUNT as int) == before);
        assert(voice@ =~= step_voice(*old(voice), oscillators@, envelope_models(envelopes@))@);
        lemma_stepped_voice_ok(*old(voice), oscillators@, envelope_models(envelopes@));
    }
    sum
}

/// The held voices, the released notes that still sound, and the settings of
/// the oscillator and envelope slots.
pub struct NoteStorage {
    notes: FixedMap,
    released_notes: Vec<Voice>,
    oscillator_properties: [OscillatorProperties; OSCILLATOR_AMOUNT],
    envelope_properties: [EnvelopeProperties; ENVELOPE_AMOUNT],
    dropped_notes: u64,
}

impl View for NoteStorage {
    type V = StorageModel;

    closed spec fn view(&self) -> StorageModel {
        StorageModel {
            held: self.notes@,
            released: self.released_notes@,
            oscillators: self.oscillator_properties@,
            envelopes: envelope_models(self.envelope_properties@),
            dropped: self.dropped_notes,
        }
    }
}

impl NoteStorage {
    /// The capacity of the table of held voices.
    pub closed spec fn capacity(&self) -> usize {
        self.notes.capacity()
    }

    /// The table has room for `POLYPHONY` voices, and what the storage holds
    /// is well-formed.
    pub open spec fn wf(&self) -> bool {
        &&& self.capacity() == POLYPHONY
        &&& self@.wf()
    }

    /// A storage without voices, with the default settings in every slot.
    pub fn new() -> (storage: NoteStorage)
        ensures
            storage.wf(),
            storage@.held == Seq::<(u8, Voice)>::empty(),
            storage@.released == Seq::<Voice>::empty(),
            storage@.oscillators == default_settings().oscillators,
            storage@.envelopes == default_settings().envelopes,
            storage@.dropped == 0,
    {
        let cache = ParamCache::default();
        NoteStorage {
            notes: FixedMap::new(POLYPHONY),
            released_notes: Vec::with_capacity(POLYPHONY),
            oscillator_properties: cache.oscillator_properties,
            envelope_properties: cache.envelope_properties,
            dropped_notes: 0,
        }
    }

    /// The number of held voices.
    pub fn held_count(&self) -> (count: usize)
        ensures
            count == self@.held.len(),
    {
        self.notes.len()
    }

    /// The number of voices that were dropped because the table was full.
    pub fn dropped_count(&self) -> (count: u64)
        ensures
            count == self@.dropped,
    {
        self.dropped_notes
    }

    /// The number of released voices that are still kept.
    pub fn released_count(&self) -> (count: usize)
        ensures
            count == self@.released.len(),
    {
        self.released_notes.len()
    }

    /// Applies one event: a key going down starts a voice, a key going up
    /// releases it.
    pub fn process_midi(&mut self, event: NoteEvent, sample_rate: u32)
        requires
            old(self).wf(),
            event_ok(event),
            event is NoteOn ==> sample_rate > 0,
        ensures
            final(self).wf(),
            final(self)@ == old(self)@.handle(event, sample_rate),
    {
        match event {
            NoteEvent::NoteOn { note, velocity } => {
                let new_notes: Voice = [
                    Note::new(note, velocity, sample_rate, 0),
                    Note::new(note, velocity, sample_rate, 1),
                    Note::new(note, velocity, sample_rate, 2),
                    Note::new(note, velocity, sample_rate, 3),
                ];
                assert(new_notes == fresh_voice(note, velocity, sample_rate));
                if self.notes.len() >= POLYPHONY && self.dropped_notes < u64::MAX {
                    self.dropped_notes = self.dropped_notes + 1;
                }
                let old_notes = self.notes.insert(note, new_notes);
                if let Some(old_notes) = old_notes {
                    self.release_note(old_notes);
                }
            },
            NoteEvent::NoteOff { note } => {
                let notes = self.notes.remove(&note);
                if let Some(notes) = notes {
                    self.release_note(notes);
                }
            },
            NoteEvent::Other => (),
        }
        assert(self@ =~~= old(self)@.handle(event, sample_rate));
    }

    /// Releases every note of a voice and moves the voice to the pool.
    fn release_note(&mut self, notes: Voice)
        requires
            notes_ok(notes@),
            voices_ok(old(self).released_notes@),
            envelopes_wf(envelope_models(old(self).envelope_properties@)),
        ensures
            final(self).released_notes@ == old(self).released_notes@.push(
                released_voice(notes, envelope_models(old(self).envelope_properties@)),
            ),
            voices_ok(final(self).released_notes@),
            final(self).notes == old(self).notes,
            final(self).oscillator_properties == old(self).oscillator_properties,
            final(self).envelope_properties == old(self).envelope_properties,
            final(self).dropped_notes == old(self).dropped_notes,
    {
        let mut voice = notes;
        let mut j: usize = 0;
        while j < OSCILLATOR_AMOUNT
            invariant
                j <= OSCILLATOR_AMOUNT,
                notes_ok(notes@),
                envelopes_wf(envelope_models(self.envelope_properties@)),
                forall|k: int|
                    0 <= k < j ==> {
                        &&& voice@[k] == notes@[k].released(
                            envelope_models(self.envelope_properties@),
                        )
                        &&& note_ok(voice@[k])
                    },
                forall|k: int| j <= k < OSCILLATOR_AMOUNT ==> voice@[k] == notes@[k],
            decreases OSCILLATOR_AMOUNT - j,
        {
            assert(note_ok(notes@[j as int]));
            voice[j].release(&self.envelope_properties);
            j = j + 1;
        }
        proof {
            let released = released_voice(notes, envelope_models(self.envelope_properties@));
            assert(voice@ =~= released@);
            assert(voice =~= released);
        }
        self.released_notes.push(voice);
    }

    /// Drops the released voices of which every note's envelope has ended.
    pub fn remove_finished_notes(&mut self)
        requires
            old(self).wf(),
        ensures
            final(self).wf(),
            final(self)@ == old(self)@.pruned(),
    {
        let ghost before = self.released_notes@;
        let count = self.released_notes.len();
        let mut kept: usize = 0;
        let mut i: usize = 0;
        while i < count
            invariant
                kept <= i <= count,
                count == before.len(),
                self.released_notes@.len() == count,
                self.released_notes@.take(kept as int) == unfinished(before.take(i as int)),
                forall|m: int| i <= m < count ==> self.released_notes@[m] == before[m],
                self.notes == old(self).notes,
                self.oscillator_properties == old(self).oscillator_properties,
                self.envelope_properties == old(self).envelope_properties,
                self.dropped_notes == old(self).dropped_notes,
            decreases count - i,
        {
            assert(before.take(i + 1).drop_last() == before.take(i as int));
            let voice = self.released_notes[i];
            if !voice_is_finished(&voice) {
                self.released_notes[kept] = voice;
                assert(self.released_notes@.take(kept + 1) == self.released_notes@.take(
                    kept as int,
                ).push(voice));
                kept = kept + 1;
            }
            i = i + 1;
        }
        self.released_notes.truncate(kept);
        proof {
            assert(before.take(count as int) == before);
            assert(self.released_notes@ == unfinished(before));
            lemma_unfinished_ok(before);
            assert(self@ =~~= old(self)@.pruned());
        }
    }

    /// Produces the next sample of every note, held and released, and returns
    /// their sum, held to the range of `i64`.
    pub fn get_sample_value(&mut self) -> (new_sample: i64)
        requires
            old(self).wf(),
        ensures
            final(self).wf(),
            final(self)@ == old(self)@.stepped(),
            new_sample == clamped(old(self)@.mix()),
    {
        let ghost before = self@;
        let ghost oscillators = before.oscillators;
        let ghost envelopes = before.envelopes;
        let mut total: i128 = 0;
        let held = self.notes.len();
        let mut i: usize = 0;
        while i < held
            invariant
                i <= held,
                held == before.held.len(),
                before == old(self)@,
                before.wf(),
                oscillators == before.oscillators,
                envelopes == before.envelopes,
                self.capacity() == old(self).capacity(),
                self.notes.wf(),
                self@.held.len() == held,
                forall|k: int|
                    0 <= k < i ==> (#[trigger] self@.held[k]) == (
                        before.held[k].0,
                        step_voice(before.held[k].1, oscillators, envelopes),
                    ),
                forall|k: int| i <= k < held ==> (#[trigger] self@.held[k]) == before.held[k],
                self@.released == before.released,
                self@.oscillators == oscillators,
                self@.envelopes == envelopes,
                self@.dropped == before.dropped,
                total == held_sample(before.held.take(i as int), oscillators, envelopes),
                -(i * 0x4_0000_0000) <= total <= i * 0x4_0000_0000,
            decreases held - i,
        {
            assert(notes_ok(before.held[i as int].1@));
            assert(before.held.take(i + 1).drop_last() == before.held.take(i as int));
            let voice = self.notes.value_mut(i);
            let sum = voice_get_sample(voice, &self.oscillator_properties, &self.envelope_properties);
            total = total + sum as i128;
            i = i + 1;
        }
        assert(before.held.take(held as int) == before.held);
        assert(self@.held =~= step_held(before.held, oscillators, envelopes));
        let count = self.released_notes.len();
        let ghost held_total = total;
        let mut k: usize = 0;
        while k < count
            invariant
                k <= count,
                count == before.released.len(),
                before == old(self)@,
                before.wf(),
                oscillators == before.oscillators,
                envelopes == before.envelopes,
                self.capacity() == old(self).capacity(),
                self@.held == step_held(before.held, oscillators, envelopes),
                self@.released.len() == count,
                forall|m: int|
                    0 <= m < k ==> (#[trigger] self@.released[m]) == step_voice(
                        before.released[m],
                        oscillators,
                        envelopes,
                    ),
                forall|m: int| k <= m < count ==> (#[trigger] self@.released[m]) == before.released[m],
                self@.oscillators == oscillators,
                self@.envelopes == envelopes,
                self@.dropped == before.dropped,
                total == held_total + voices_sample(
                    before.released.take(k as int),
                    oscillators,
                    envelopes,
                ),
                -(0x100_0000_0000) <= held_total <= 0x100_0000_0000,
                -(k * 0x4_0000_0000) <= total - held_total <= k * 0x4_0000_0000,
            decreases count - k,
        {
            assert(notes_ok(before.released[k as int]@));
            assert(before.released.take(k + 1).drop_last() == before.released.take(k as int));
            let sum = voice_get_sample(
                &mut self.released_notes[k],
                &self.oscillator_properties,
                &self.envelope_properties,
            );
            total = total + sum as i128;
            k = k + 1;
        }
        proof {
            assert(before.released.take(count as int) == before.released);
            assert(self@.released =~= step_voices(before.released, oscillators, envelopes));
            assert(self@ =~~= before.stepped());
            lemma_stepped_wf(before);
        }
        if total > i64::MAX as i128 {
            i64::MAX
        } else if total < i64::MIN as i128 {
            i64::MIN
        } else {
            total as i64
        }
    }

    /// Takes over the settings of every oscillator and envelope slot from the
    /// cache.
    pub fn update(&mut self, cache: &ParamCache)
        requires
            old(self).wf(),
            cache.wf(),
        ensures
            final(self).wf(),
            final(self)@ == old(self)@.updated(cache@),
    {
        let mut i: usize = 0;
        while i < OSCILLATOR_AMOUNT
            invariant
                i <= OSCILLATOR_AMOUNT,
                self.notes == old(self).notes,
                self.released_notes == old(self).released_notes,
                self.dropped_notes == old(self).dropped_notes,
                self.envelope_properties == old(self).envelope_properties,
                forall|k: int|
                    0 <= k < i ==> (#[trigger] self.oscillator_properties@[k])
                        == cache.oscillator_properties@[k],
            decreases OSCILLATOR_AMOUNT - i,
        {
            self.oscillator_properties[i] = cache.oscillator_properties[i];
            i = i + 1;
        }
        assert(self.oscillator_properties@ =~= cache.oscillator_properties@);
        let mut i: usize = 0;
        while i < ENVELOPE_AMOUNT
            invariant
                i <= ENVELOPE_AMOUNT,
                cache.wf(),
                self.notes == old(self).notes,
                self.released_notes == old(self).released_notes,
                self.dropped_notes == old(self).dropped_notes,
                self.oscillator_properties@ == cache.oscillator_properties@,
                forall|k: int|
                    0 <= k < i ==> (#[trigger] self.envelope_properties@[k])@
                        == cache.envelope_properties@[k]@,
            decreases ENVELOPE_AMOUNT - i,
        {
            self.envelope_properties[i] = cache.envelope_properties[i].clone();
            i = i + 1;
        }
        assert(self@ =~~= old(self)@.updated(cache@));
    }
}

/// Dropping ended voices keeps the others well-formed.
proof fn lemma_unfinished_ok(voices: Seq<Voice>)
    requires
        voices_ok(voices),
    ensures
        voices_ok(unfinished(voices)),
    decreases voices.len(),
{
    if voices.len() > 0 {
        assert(voices_ok(voices.drop_last())) by {
            assert forall|k: int| 0 <= k < voices.drop_last().len() implies notes_ok(
                (#[trigger] voices.drop_last()[k])@,
            ) by {
                assert(notes_ok(voices[k]@));
            }
        }
        lemma_unfinished_ok(voices.drop_last());
        assert(notes_ok(voices[voices.len() - 1]@));
    }
}

/// A well-formed storage is well-formed after every note's next sample.
proof fn lemma_stepped_wf(model: StorageModel)
    requires
        model.wf(),
    ensures
        model.stepped().wf(),
{
    let after = model.stepped();
    assert forall|i: int| 0 <= i < after.held.len() implies notes_ok(
        (#[trigger] after.held[i]).1@,
    ) by {
        assert(notes_ok(model.held[i].1@));
        lemma_stepped_voice_ok(model.held[i].1, model.oscillators, model.envelopes);
    }
    assert forall|k: int| 0 <= k < after.released.len() implies notes_ok(
        (#[trigger] after.released[k])@,
    ) by {
        assert(notes_ok(model.released[k]@));
        lemma_stepped_voice_ok(model.released[k], model.oscillators, model.envelopes);
    }
    assert(keys_distinct(after.held)) by {
        assert forall|i: int, j: int| 0 <= i < j < after.held.len() implies (
        #[trigger] after.held[i]).0 != (#[trigger] after.held[j]).0 by {
            assert(model.held[i].0 != model.held[j].0);
        }
    }
}

} // verus!
