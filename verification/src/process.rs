//! The per-sample signal path: envelopes, oscillators, voices and their
//! storage.

pub mod envelope;
pub mod note;
pub mod notes;
pub mod pitch;
pub mod visual_data;
pub mod wave;
