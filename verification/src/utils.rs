//! Index ranges over the oscillator and envelope slots.

use vstd::prelude::*;
use crate::{ENVELOPE_AMOUNT, OSCILLATOR_AMOUNT};

pub mod cache;
pub mod fixed_map;

verus! {

/// The indices `0, 1, ..., size - 1` in ascending order.
pub fn get_vector(size: usize) -> (v: Vec<usize>)
    ensures
        v@.len() == size,
        forall|i: int| 0 <= i < size ==> v@[i] == i,
{
    let mut v: Vec<usize> = Vec::new();
    let mut i: usize = 0;
    while i < size
        invariant
            i <= size,
            v@.len() == i,
            forall|j: int| 0 <= j < i ==> v@[j] == j,
        decreases size - i,
    {
        v.push(i);
        i = i + 1;
    }
    v
}

/// The index of every oscillator slot, in ascending order.
pub fn get_oscillator_array() -> (a: [usize; OSCILLATOR_AMOUNT])
    ensures
        forall|i: int| 0 <= i < OSCILLATOR_AMOUNT ==> a@[i] == i,
{
    [0, 1, 2, 3]
}

/// The index of every envelope slot, in ascending order.
pub fn get_envelope_array() -> (a: [usize; ENVELOPE_AMOUNT])
    ensures
        forall|i: int| 0 <= i < ENVELOPE_AMOUNT ==> a@[i] == i,
{
    [0, 1, 2, 3]
}

} // verus!
