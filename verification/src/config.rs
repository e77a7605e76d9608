//! Shared simulation constants.
//!
//! Probabilities are kept in fixed-point form: the value `SCALE` stands for
//! probability one, so a probability vector is valid exactly when its
//! components sum to `SCALE`.

use vstd::prelude::*;

verus! {

/// Fixed-point scale: the weight that stands for probability 1.
pub const SCALE: u64 = 1_000_000;

/// Default per-component synchronization / noise probability (one percent),
/// in fixed-point form.
pub const RANDOMNESS_FACTOR: u64 = SCALE / 100;

/// Default probability that a freshly initialized cell receives an entangled
/// partner (88 percent), in fixed-point form.
pub const ENTANGLEMENT_PROBABILITY: u64 = 88 * (SCALE / 100);

/// Default grid dimensions.
pub const GRID_WIDTH: u32 = 512;

/// Default grid dimensions.
pub const GRID_HEIGHT: u32 = 512;

/// Compute-shader workgroup edge length, device path.
pub const WORKGROUP_SIZE: u32 = 16;

} // verus!
