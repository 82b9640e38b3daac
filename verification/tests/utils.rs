use synth::utils::{get_envelope_array, get_oscillator_array, get_vector};

#[test]
fn vector_counts_up_from_zero() {
    assert_eq!(get_vector(0), Vec::<usize>::new());
    assert_eq!(get_vector(5), vec![0, 1, 2, 3, 4]);
}

#[test]
fn slot_arrays_hold_their_indices() {
    assert_eq!(get_oscillator_array(), [0, 1, 2, 3]);
    assert_eq!(get_envelope_array(), [0, 1, 2, 3]);
}
