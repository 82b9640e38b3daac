use synth::fixed::ONE;
use synth::gui::events::{add_item, ControlEvent, TargetData};
use synth::params::envelope_target::{EnvelopeTargets, Target};

#[test]
fn adding_switches_on_the_first_slot_that_is_off() {
    assert_eq!(add_item(&[true, false, false, false]), (Some(1), false));
    assert_eq!(add_item(&[false, false, false, false]), (Some(0), false));
    assert_eq!(add_item(&[true, false, true, false]), (Some(1), false));
}

#[test]
fn adding_the_last_slot_reaches_the_maximum() {
    assert_eq!(add_item(&[true, true, true, false]), (Some(3), true));
    assert_eq!(add_item(&[true, false, true, true]), (Some(1), true));
    assert_eq!(add_item(&[false, true, true, true]), (Some(0), true));
}

#[test]
fn adding_to_a_full_row_changes_nothing() {
    assert_eq!(add_item(&[true, true, true, true]), (None, true));
}

#[test]
fn target_events_add_and_remove_entries() {
    let mut list = EnvelopeTargets::with_target(Target::AllOscillators);
    list.event(&ControlEvent::AddEnvelopeTarget);
    assert_eq!(list.targets, vec![(Target::AllOscillators, ONE), (Target::Unassigned, ONE)]);
    list.event(&ControlEvent::RemoveEnvelopeTarget(0));
    assert_eq!(list.targets, vec![(Target::Unassigned, ONE)]);
}

#[test]
fn other_events_leave_the_targets_alone() {
    let mut list = EnvelopeTargets::with_target(Target::AllOscillators);
    for event in [
        ControlEvent::AddOscillator,
        ControlEvent::RemoveOscillator,
        ControlEvent::AddEnvelope,
        ControlEvent::RemoveEnvelope,
        ControlEvent::SetEnvelopeTarget(0, 0, Target::Oscillator(1)),
        ControlEvent::SetEnvelopeTargetDepth(0, 0, 5),
    ] {
        list.event(&event);
    }
    assert_eq!(list.targets, vec![(Target::AllOscillators, ONE)]);
}

#[test]
fn targets_are_reassigned_in_place() {
    let mut list = EnvelopeTargets::with_target(Target::AllOscillators);
    list.add();
    list.reassign(1, Target::Oscillator(2));
    list.set_depth(0, 77);
    assert_eq!(list.targets, vec![(Target::AllOscillators, 77), (Target::Oscillator(2), ONE)]);
}

#[test]
fn a_row_shows_its_entry_and_the_choices() {
    let data = TargetData::new((Target::Oscillator(1), 40000));
    assert_eq!(data.target, Target::Oscillator(1));
    assert_eq!(data.depth, 40000);
    assert_eq!(
        data.possible_targets,
        vec![
            Target::Unassigned,
            Target::AllOscillators,
            Target::Oscillator(0),
            Target::Oscillator(1),
            Target::Oscillator(2),
            Target::Oscillator(3),
        ]
    );
}

#[test]
fn a_row_takes_over_target_and_depth() {
    let mut data = TargetData::new((Target::Unassigned, ONE));
    data.event(&ControlEvent::SetEnvelopeTarget(3, 1, Target::AllOscillators));
    assert_eq!(data.target, Target::AllOscillators);
    assert_eq!(data.depth, ONE);
    data.event(&ControlEvent::SetEnvelopeTargetDepth(3, 1, 123));
    assert_eq!(data.target, Target::AllOscillators);
    assert_eq!(data.depth, 123);
    data.event(&ControlEvent::AddEnvelopeTarget);
    data.event(&ControlEvent::RemoveEnvelopeTarget(9));
    assert_eq!(data.target, Target::AllOscillators);
    assert_eq!(data.depth, 123);
}
