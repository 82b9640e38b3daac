//! Parameter data that the signal path reads.

pub mod envelope_target;
