//! The events of the controls, and what they do to the data that the
//! controls edit.

use vstd::prelude::*;
use crate::params::envelope_target::{get_possible_targets, EnvelopeTargets, Target};
use crate::OSCILLATOR_AMOUNT;

verus! {

/// What a control asks for.
#[derive(Clone, Copy, Debug, PartialEq, Eq, Structural)]
pub enum ControlEvent {
    AddOscillator,
    RemoveOscillator,
    AddEnvelope,
    RemoveEnvelope,
    AddEnvelopeTarget,
    /// The index of the target in its list.
    RemoveEnvelopeTarget(usize),
    /// The index of the envelope, the index of the target in its list, and
    /// the new target.
    SetEnvelopeTarget(usize, usize, Target),
    /// The index of the envelope, the index of the target in its list, and
    /// the new depth in Q16.16.
    SetEnvelopeTargetDepth(usize, usize, u32),
}

/// The index of the first slot from `from` on that is switched off.
pub open spec fn first_disabled(enabled: Seq<bool>, from: int) -> Option<int>
    decreases enabled.len() - from,
{
    if from < 0 || from >= enabled.len() {
        None
    } else if !enabled[from] {
        Some(from)
    } else {
        first_disabled(enabled, from + 1)
    }
}

/// The first disabled slot is disabled and no slot before it is; there is
/// none only if every slot is enabled.
pub proof fn lemma_first_disabled(enabled: Seq<bool>, from: int)
    requires
        0 <= from,
    ensures
        match first_disabled(enabled, from) {
            Some(i) => from <= i < enabled.len() && !enabled[i] && forall|j: int|
                from <= j < i ==> #[trigger] enabled[j],
            None => forall|j: int| from <= j < enabled.len() ==> #[trigger] enabled[j],
        },
    decreases enabled.len() - from,
{
    if from < enabled.len() && enabled[from] {
        lemma_first_disabled(enabled, from + 1);
    }
}

/// Whether every slot but `except` is switched on.
pub open spec fn all_enabled_but(enabled: Seq<bool>, except: Option<int>) -> bool {
    forall|j: int| 0 <= j < enabled.len() && Some(j) != except ==> #[trigger] enabled[j]
}

/// Decides what adding an item does to a row of slots that are switched on
/// or off: the first slot that is off is to be switched on, and the row is
/// at its maximum if no other slot is off.
pub fn add_item(enabled: &[bool; OSCILLATOR_AMOUNT]) -> (decision: (Option<usize>, bool))
    ensures
        match first_disabled(enabled@, 0) {
            Some(i) => decision.0 == Some(i as usize),
            None => decision.0 is None,
        },
        decision.1 == all_enabled_but(enabled@, first_disabled(enabled@, 0)),
{
    let mut all_enabled = true;
    let mut set: Option<usize> = None;
    let mut i: usize = 0;
    while i < OSCILLATOR_AMOUNT && all_enabled
        invariant
            i <= OSCILLATOR_AMOUNT,
            enabled@.len() == OSCILLATOR_AMOUNT,
            match set {
                Some(first) => {
                    &&& first < i
                    &&& !enabled@[first as int]
                    &&& forall|j: int| 0 <= j < first ==> #[trigger] enabled@[j]
                    &&& all_enabled ==> forall|j: int| first < j < i ==> #[trigger] enabled@[j]
                    &&& !all_enabled ==> exists|j: int|
                        first < j < enabled@.len() && !#[trigger] enabled@[j]
                },
                None => all_enabled && forall|j: int| 0 <= j < i ==> #[trigger] enabled@[j],
            },
        decreases OSCILLATOR_AMOUNT - i + if all_enabled { 1int } else { 0int },
    {
        if !enabled[i] {
            if set.is_some() {
                all_enabled = false;
            } else {
                set = Some(i);
            }
        }
        i = i + 1;
    }
    proof {
        lemma_first_disabled(enabled@, 0);
    }
    (set, all_enabled)
}

impl EnvelopeTargets {
    /// What an event leaves of a list of targets: adding appends an
    /// unassigned entry, removing takes the entry out, nothing else touches
    /// the list.
    pub open spec fn after_event(
        targets: Seq<(Target, u32)>,
        event: ControlEvent,
    ) -> Seq<(Target, u32)> {
        match event {
            ControlEvent::AddEnvelopeTarget => targets.push((Target::Unassigned, crate::fixed::ONE)),
            ControlEvent::RemoveEnvelopeTarget(i) => targets.remove(i as int),
            _ => targets,
        }
    }

    /// Applies an event of the controls to the list.
    pub fn event(&mut self, event: &ControlEvent)
        requires
            *event matches ControlEvent::RemoveEnvelopeTarget(i) ==> i < old(self)@.len(),
        ensures
            final(self)@ == Self::after_event(old(self)@, *event),
    {
        match *event {
            ControlEvent::AddEnvelopeTarget => {
                self.add();
            },
            ControlEvent::RemoveEnvelopeTarget(i) => {
                self.remove(i);
            },
            _ => {},
        }
    }
}

/// What one row of the list of targets shows: the target, its depth, and the
/// targets that can be chosen in its place.
#[derive(Debug)]
pub struct TargetData {
    pub target: Target,
    /// Q16.16.
    pub depth: u32,
    pub possible_targets: Vec<Target>,
}

impl TargetData {
    pub fn new(entry: (Target, u32)) -> (data: TargetData)
        ensures
            data.target == entry.0,
            data.depth == entry.1,
            data.possible_targets@.len() == 2 + OSCILLATOR_AMOUNT,
            data.possible_targets@[0] == Target::Unassigned,
            data.possible_targets@[1] == Target::AllOscillators,
            forall|i: int|
                2 <= i < 2 + OSCILLATOR_AMOUNT ==> data.possible_targets@[i] == Target::Oscillator(
                    (i - 2) as usize,
                ),
    {
        TargetData { target: entry.0, depth: entry.1, possible_targets: get_possible_targets() }
    }

    /// Applies an event of the controls to the row: a new target or a new
    /// depth is taken over, nothing else touches the row.
    pub fn event(&mut self, event: &ControlEvent)
        ensures
            final(self).target == match *event {
                ControlEvent::SetEnvelopeTarget(_, _, target) => target,
                _ => old(self).target,
            },
            final(self).depth == match *event {
                ControlEvent::SetEnvelopeTargetDepth(_, _, depth) => depth,
                _ => old(self).depth,
            },
            final(self).possible_targets == old(self).possible_targets,
    {
        match *event {
            ControlEvent::SetEnvelopeTarget(_, _, target) => {
                self.target = target;
            },
            ControlEvent::SetEnvelopeTargetDepth(_, _, depth) => {
                self.depth = depth;
            },
            _ => {},
        }
    }
}

} // verus!
