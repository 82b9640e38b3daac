use synth::fixed::ONE;
use synth::params::envelope_target::{get_possible_targets, EnvelopeTargets, Target};
use synth::process::envelope::{Adsr, EnvelopeProperties};

#[test]
fn new_list_is_empty() {
    assert!(EnvelopeTargets::new().targets.is_empty());
}

#[test]
fn with_target_holds_one_entry_at_full_depth() {
    let list = EnvelopeTargets::with_target(Target::AllOscillators);
    assert_eq!(list.targets, vec![(Target::AllOscillators, ONE)]);
}

#[test]
fn default_list_is_the_first_oscillator() {
    assert_eq!(EnvelopeTargets::default().targets, vec![(Target::Oscillator(0), ONE)]);
}

#[test]
fn add_appends_an_unassigned_entry() {
    let mut list = EnvelopeTargets::with_target(Target::Parameter(3));
    list.add();
    list.add();
    assert_eq!(
        list.targets,
        vec![(Target::Parameter(3), ONE), (Target::Unassigned, ONE), (Target::Unassigned, ONE)]
    );
}

#[test]
fn remove_takes_the_entry_and_moves_the_rest_up() {
    let mut list = EnvelopeTargets::new();
    list.targets.push((Target::Oscillator(0), 1));
    list.targets.push((Target::Oscillator(1), 2));
    list.targets.push((Target::Oscillator(2), 3));
    assert_eq!(list.remove(1), (Target::Oscillator(1), 2));
    assert_eq!(list.targets, vec![(Target::Oscillator(0), 1), (Target::Oscillator(2), 3)]);
    assert_eq!(list.remove(0), (Target::Oscillator(0), 1));
    assert_eq!(list.remove(0), (Target::Oscillator(2), 3));
    assert!(list.targets.is_empty());
}

#[test]
fn amount_adds_up_the_depths_of_one_target() {
    let mut list = EnvelopeTargets::new();
    list.targets.push((Target::Oscillator(1), 100));
    list.targets.push((Target::AllOscillators, 7));
    list.targets.push((Target::Oscillator(1), 20));
    list.targets.push((Target::Oscillator(2), 3));
    assert_eq!(list.get_amount_for(Target::Oscillator(1)), 120);
    assert_eq!(list.get_amount_for(Target::AllOscillators), 7);
    assert_eq!(list.get_amount_for(Target::Oscillator(2)), 3);
    assert_eq!(list.get_amount_for(Target::Oscillator(0)), 0);
    assert_eq!(list.get_amount_for(Target::Parameter(1)), 0);
    assert_eq!(list.get_amount_for(Target::Unassigned), 0);
}

#[test]
fn amount_does_not_overflow() {
    let mut list = EnvelopeTargets::new();
    for _ in 0..3 {
        list.targets.push((Target::AllOscillators, u32::MAX));
    }
    assert_eq!(list.get_amount_for(Target::AllOscillators), 3 * (u32::MAX as u128));
}

#[test]
fn has_target_looks_at_every_entry() {
    let mut list = EnvelopeTargets::with_target(Target::Oscillator(2));
    list.add();
    assert!(list.has_target(Target::Oscillator(2)));
    assert!(list.has_target(Target::Unassigned));
    assert!(!list.has_target(Target::Oscillator(0)));
    assert!(!list.has_target(Target::AllOscillators));
    assert!(!list.has_target(Target::Parameter(2)));
    assert!(!EnvelopeTargets::new().has_target(Target::Unassigned));
}

#[test]
fn from_and_clone_copy_the_entries() {
    let mut list = EnvelopeTargets::with_target(Target::Oscillator(2));
    list.add();
    let copy = EnvelopeTargets::from(&list);
    assert_eq!(copy.targets, list.targets);
    let clone = list.clone();
    list.add();
    assert_eq!(clone.targets, copy.targets);
    assert_eq!(list.targets.len(), 3);
}

#[test]
fn possible_targets_are_none_all_and_each_oscillator() {
    assert_eq!(
        get_possible_targets(),
        vec![
            Target::Unassigned,
            Target::AllOscillators,
            Target::Oscillator(0),
            Target::Oscillator(1),
            Target::Oscillator(2),
            Target::Oscillator(3),
        ]
    );
}

#[test]
fn envelope_properties_read_their_targets() {
    let mut targets = EnvelopeTargets::with_target(Target::Oscillator(1));
    targets.targets.push((Target::Oscillator(1), 5));
    let properties = EnvelopeProperties::new(Adsr::new(1, 2, 3, 4), targets);
    assert_eq!(properties.adsr, Adsr::new(1, 2, 3, 4));
    assert_eq!(properties.get_amount_for(Target::Oscillator(1)), ONE as u128 + 5);
    assert_eq!(properties.get_amount_for(Target::Oscillator(0)), 0);
    assert!(properties.has_target(Target::Oscillator(1)));
    assert!(!properties.has_target(Target::AllOscillators));
    let copy = properties.clone();
    assert_eq!(copy.adsr, properties.adsr);
    assert_eq!(copy.targets.targets, properties.targets.targets);
}

#[test]
fn envelope_properties_default() {
    let properties = EnvelopeProperties::default();
    assert_eq!(properties.adsr, Adsr::default());
    assert_eq!(properties.targets.targets, vec![(Target::Oscillator(0), ONE)]);
}
