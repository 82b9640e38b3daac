//! What the user interface computes from plain values: the window of the
//! oscilloscope, and what its events do to the data that they edit.

pub mod events;
pub mod scope;
