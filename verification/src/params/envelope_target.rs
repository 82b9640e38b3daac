//! What an envelope modulates: a list of targets, each with a depth.

use vstd::prelude::*;
use crate::fixed::ONE;
use crate::OSCILLATOR_AMOUNT;

verus! {

/// A destination of an envelope.
#[derive(Clone, Copy, Debug, PartialEq, Eq, Hash, Structural)]
pub enum Target {
    Unassigned,
    AllOscillators,
    Oscillator(usize),
    Parameter(usize),
}

/// The sum of the depths of the entries of `targets` that name `target`.
pub open spec fn amount_for(targets: Seq<(Target, u32)>, target: Target) -> int
    decreases targets.len(),
{
    if targets.len() == 0 {
        0
    } else {
        amount_for(targets.drop_last(), target) + if targets.last().0 == target {
            targets.last().1 as int
        } else {
            0
        }
    }
}

/// Whether an entry of `targets` names `target`.
pub open spec fn names_target(targets: Seq<(Target, u32)>, target: Target) -> bool {
    exists|i: int| 0 <= i < targets.len() && (#[trigger] targets[i]).0 == target
}

/// The sum of depths is at most 2^32 - 1 for each entry.
pub proof fn lemma_amount_for_bounds(targets: Seq<(Target, u32)>, target: Target)
    ensures
        0 <= amount_for(targets, target) <= targets.len() * 0xffff_ffff,
    decreases targets.len(),
{
    if targets.len() > 0 {
        lemma_amount_for_bounds(targets.drop_last(), target);
    }
}

/// The targets of one envelope, in the order in which they were added, each
/// with its depth (a Q16.16 weight).
#[derive(Debug)]
pub struct EnvelopeTargets {
    pub targets: Vec<(Target, u32)>,
}

impl View for EnvelopeTargets {
    type V = Seq<(Target, u32)>;

    open spec fn view(&self) -> Seq<(Target, u32)> {
        self.targets@
    }
}

impl EnvelopeTargets {
    /// A copy of `from`.
    pub fn from(from: &EnvelopeTargets) -> (copy: EnvelopeTargets)
        ensures
            copy@ == from@,
    {
        let mut targets: Vec<(Target, u32)> = Vec::with_capacity(from.targets.len());
        let mut i: usize = 0;
        while i < from.targets.len()
            invariant
                i <= from.targets.len(),
                targets@ == from.targets@.take(i as int),
            decreases from.targets.len() - i,
        {
            targets.push(from.targets[i]);
            i = i + 1;
        }
        EnvelopeTargets { targets }
    }

    /// No targets.
    pub fn new() -> (list: EnvelopeTargets)
        ensures
            list@ == Seq::<(Target, u32)>::empty(),
    {
        EnvelopeTargets { targets: Vec::with_capacity(64) }
    }

    /// The single target `target`, at full depth.
    pub fn with_target(target: Target) -> (list: EnvelopeTargets)
        ensures
            list@ == seq![(target, ONE)],
    {
        let mut new = Self::new();
        new.targets.push((target, ONE));
        new
    }

    /// Appends an entry that names no target, at full depth.
    pub fn add(&mut self)
        ensures
            final(self)@ == old(self)@.push((Target::Unassigned, ONE)),
    {
        self.targets.push((Target::Unassigned, ONE))
    }

    /// Takes out the entry at `index`; the entries behind it move up.
    pub fn remove(&mut self, index: usize) -> (entry: (Target, u32))
        requires
            index < old(self)@.len(),
        ensures
            entry == old(self)@[index as int],
            final(self)@ == old(self)@.remove(index as int),
    {
        self.targets.remove(index)
    }

    /// Gives the entry at `index` another target; its depth stays.
    pub fn reassign(&mut self, index: usize, target: Target)
        requires
            index < old(self)@.len(),
        ensures
            final(self)@ == old(self)@.update(index as int, (target, old(self)@[index as int].1)),
    {
        let depth = self.targets[index].1;
        self.targets[index] = (target, depth);
    }

    /// Gives the entry at `index` another depth; its target stays.
    pub fn set_depth(&mut self, index: usize, depth: u32)
        requires
            index < old(self)@.len(),
        ensures
            final(self)@ == old(self)@.update(index as int, (old(self)@[index as int].0, depth)),
    {
        let target = self.targets[index].0;
        self.targets[index] = (target, depth);
    }

    /// The depths of all entries that name `target`, added up.
    pub fn get_amount_for(&self, target: Target) -> (amount: u128)
        ensures
            amount == amount_for(self@, target),
    {
        let mut amount: u128 = 0;
        let mut i: usize = 0;
        while i < self.targets.len()
            invariant
                i <= self.targets.len(),
                amount == amount_for(self.targets@.take(i as int), target),
                amount <= i * 0xffff_ffff,
            decreases self.targets.len() - i,
        {
            proof {
                assert(self.targets@.take(i + 1).drop_last() == self.targets@.take(i as int));
                lemma_amount_for_bounds(self.targets@.take(i + 1), target);
            }
            let entry = self.targets[i];
            if entry.0 == target {
                amount = amount + entry.1 as u128;
            }
            i = i + 1;
        }
        assert(self.targets@.take(i as int) == self.targets@);
        amount
    }

    /// Whether some entry names `target`.
    pub fn has_target(&self, target: Target) -> (found: bool)
        ensures
            found == names_target(self@, target),
    {
        let mut i: usize = 0;
        while i < self.targets.len()
            invariant
                i <= self.targets.len(),
                forall|j: int| 0 <= j < i ==> (#[trigger] self.targets@[j]).0 != target,
            decreases self.targets.len() - i,
        {
            if self.targets[i].0 == target {
                return true;
            }
            i = i + 1;
        }
        false
    }
}

impl Clone for EnvelopeTargets {
    fn clone(&self) -> (copy: EnvelopeTargets)
        ensures
            copy@ == self@,
    {
        EnvelopeTargets::from(self)
    }
}

impl Default for EnvelopeTargets {
    /// The first oscillator, at full depth.
    fn default() -> (list: EnvelopeTargets)
        ensures
            list@ == seq![(Target::Oscillator(0), ONE)],
    {
        Self::with_target(Target::Oscillator(0))
    }
}

/// The targets that can be chosen: no target, all oscillators, then each
/// oscillator by its index.
pub fn get_possible_targets() -> (result: Vec<Target>)
    ensures
        result@.len() == 2 + OSCILLATOR_AMOUNT,
        result@[0] == Target::Unassigned,
        result@[1] == Target::AllOscillators,
        forall|i: int| 2 <= i < 2 + OSCILLATOR_AMOUNT ==> result@[i] == Target::Oscillator((i - 2) as usize),
{
    let mut result: Vec<Target> = Vec::new();
    result.push(Target::Unassigned);
    result.push(Target::AllOscillators);
    let mut i: usize = 0;
    while i < OSCILLATOR_AMOUNT
        invariant
            i <= OSCILLATOR_AMOUNT,
            result@.len() == 2 + i,
            result@[0] == Target::Unassigned,
            result@[1] == Target::AllOscillators,
            forall|j: int| 2 <= j < 2 + i ==> result@[j] == Target::Oscillator((j - 2) as usize),
        decreases OSCILLATOR_AMOUNT - i,
    {
        result.push(Target::Oscillator(i));
        i = i + 1;
    }
    result
}

} // verus!
