use synth::process::note::Note;
use synth::utils::fixed_map::{FixedMap, Voice};

fn voice(midi_note: u8, velocity: u32) -> Voice {
    [
        Note::new(midi_note, velocity, 48000, 0),
        Note::new(midi_note, velocity, 48000, 1),
        Note::new(midi_note, velocity, 48000, 2),
        Note::new(midi_note, velocity, 48000, 3),
    ]
}

fn keys(table: &mut FixedMap) -> Vec<u8> {
    let mut keys = Vec::new();
    for i in 0..table.len() {
        keys.push(table.value_mut(i)[0].midi_note);
    }
    keys
}

#[test]
fn new_table_is_empty() {
    assert_eq!(FixedMap::new(64).len(), 0);
    assert_eq!(FixedMap::new(0).len(), 0);
    assert_eq!(FixedMap::new(usize::MAX).len(), 0);
}

#[test]
fn insert_puts_new_keys_last() {
    let mut table = FixedMap::new(8);
    assert_eq!(table.insert(60, voice(60, 1)), None);
    assert_eq!(table.insert(62, voice(62, 1)), None);
    assert_eq!(table.insert(61, voice(61, 1)), None);
    assert_eq!(table.len(), 3);
    assert_eq!(keys(&mut table), vec![60, 62, 61]);
}

#[test]
fn insert_replaces_in_place_and_returns_the_old_value() {
    let mut table = FixedMap::new(8);
    table.insert(60, voice(60, 1));
    table.insert(62, voice(62, 2));
    table.insert(64, voice(64, 3));
    assert_eq!(table.insert(62, voice(62, 9)), Some(voice(62, 2)));
    assert_eq!(table.len(), 3);
    assert_eq!(keys(&mut table), vec![60, 62, 64]);
    assert_eq!(*table.value_mut(1), voice(62, 9));
}

#[test]
fn insert_past_capacity_is_refused() {
    let mut table = FixedMap::new(2);
    assert_eq!(table.insert(1, voice(1, 1)), None);
    assert_eq!(table.insert(2, voice(2, 1)), None);
    assert_eq!(table.insert(3, voice(3, 1)), None);
    assert_eq!(table.len(), 2);
    assert_eq!(keys(&mut table), vec![1, 2]);
}

#[test]
fn a_full_table_refuses_even_a_key_that_it_holds() {
    let mut table = FixedMap::new(2);
    table.insert(1, voice(1, 1));
    table.insert(2, voice(2, 1));
    assert_eq!(table.insert(1, voice(1, 7)), None);
    assert_eq!(*table.value_mut(0), voice(1, 1));
}

#[test]
fn a_table_of_capacity_zero_takes_nothing() {
    let mut table = FixedMap::new(0);
    assert_eq!(table.insert(1, voice(1, 1)), None);
    assert_eq!(table.len(), 0);
}

#[test]
fn more_keys_than_capacity_leave_exactly_capacity_entries() {
    let mut table = FixedMap::new(64);
    for key in 0..=255u8 {
        table.insert(key, voice(key, 1));
        assert!(table.len() <= 64);
    }
    assert_eq!(table.len(), 64);
    assert_eq!(keys(&mut table), (0..64u8).collect::<Vec<u8>>());
}

#[test]
fn the_order_of_insertion_does_not_let_the_table_grow() {
    let mut table = FixedMap::new(5);
    for key in [9u8, 3, 200, 3, 7, 9, 1, 0, 255, 4, 200] {
        table.insert(key, voice(key, 1));
        assert!(table.len() <= 5);
    }
    assert_eq!(keys(&mut table), vec![9, 3, 200, 7, 1]);
}

#[test]
fn remove_returns_the_value_and_the_others_keep_their_order() {
    let mut table = FixedMap::new(8);
    for key in [10u8, 20, 30, 40] {
        table.insert(key, voice(key, key as u32));
    }
    assert_eq!(table.remove(&20), Some(voice(20, 20)));
    assert_eq!(keys(&mut table), vec![10, 30, 40]);
    assert_eq!(table.remove(&40), Some(voice(40, 40)));
    assert_eq!(keys(&mut table), vec![10, 30]);
    assert_eq!(table.remove(&10), Some(voice(10, 10)));
    assert_eq!(keys(&mut table), vec![30]);
    assert_eq!(table.remove(&30), Some(voice(30, 30)));
    assert_eq!(table.len(), 0);
}

#[test]
fn removing_the_first_of_three_leaves_the_second_before_the_third() {
    let mut table = FixedMap::new(4);
    table.insert(1, voice(1, 10));
    table.insert(2, voice(2, 20));
    table.insert(3, voice(3, 30));
    assert_eq!(table.remove(&1), Some(voice(1, 10)));
    assert_eq!(keys(&mut table), vec![2, 3]);
    assert_eq!(*table.value_mut(0), voice(2, 20));
    assert_eq!(*table.value_mut(1), voice(3, 30));
    // a key that comes back is put last
    table.insert(1, voice(1, 11));
    assert_eq!(keys(&mut table), vec![2, 3, 1]);
}

#[test]
fn remove_of_a_missing_key_changes_nothing() {
    let mut table = FixedMap::new(8);
    assert_eq!(table.remove(&5), None);
    table.insert(1, voice(1, 1));
    assert_eq!(table.remove(&5), None);
    assert_eq!(keys(&mut table), vec![1]);
}

#[test]
fn remove_makes_room_again() {
    let mut table = FixedMap::new(2);
    table.insert(1, voice(1, 1));
    table.insert(2, voice(2, 1));
    table.remove(&1);
    assert_eq!(table.insert(3, voice(3, 1)), None);
    assert_eq!(keys(&mut table), vec![2, 3]);
}

#[test]
fn value_mut_writes_through() {
    let mut table = FixedMap::new(8);
    table.insert(1, voice(1, 1));
    table.insert(2, voice(2, 1));
    table.value_mut(1)[2].velocity = 77;
    assert_eq!(table.value_mut(1)[2].velocity, 77);
    assert_eq!(table.value_mut(0)[2].velocity, 1);
    assert_eq!(table.len(), 2);
    let mut want = voice(2, 1);
    want[2].velocity = 77;
    assert_eq!(table.remove(&2), Some(want));
}
