//! A deterministic, replayable pseudo-random generator built around
//! label-addressed forking.
//!
//! Instead of threading one mutable generator through a program, callers
//! derive a tree of independent sub-generators: forking copies the
//! generator's hash-accumulator state and absorbs an encoded label into the
//! copy, leaving the receiver untouched.  Equal seeds and equal label
//! sequences therefore reproduce identical output, while different labels
//! yield statistically independent streams.

pub mod hashing;
pub mod label;
pub mod rng;

pub use label::Label;
pub use label::LabelVal;
pub use rng::PureRandomGenerator;
