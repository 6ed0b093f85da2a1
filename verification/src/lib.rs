//! Single-pass decoding of a record whose keys are split between the named
//! fields of an outer record and one nested record that takes all the rest.
//!
//! The pass routes each key while it is read: a key that the outer record
//! claims has its value stored at once, every other key is handed on to the
//! nested record in the order of the source. No entry is held back, and none
//! is read twice.

pub mod private;
