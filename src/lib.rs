//! A verified Poseidon2 permutation over the prime field of order `2^31 - 1`.
//!
//! The round structure, the external and internal linear layers and the whole
//! permutation are stated as spec functions over sequences of integers; the
//! executable code is proved to compute exactly those functions.
use vstd::prelude::*;

pub mod field;
pub mod layers;
pub mod permutation;
pub mod packed;

verus! {

} // verus!
