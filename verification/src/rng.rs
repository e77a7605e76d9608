//! Randomness sources.
//!
//! Per-cell, per-tick randomness is pseudo-random and fully deterministic:
//! each cell derives an independent draw stream from its own coordinate and
//! the tick seed through a PCG-style integer hash, so an evaluation is
//! reproducible regardless of worker scheduling. True randomness enters the
//! crate in one place only, the grid initializer, through `random_below`.

use vstd::prelude::*;
use crate::config::SCALE;
use crate::rule::Draws;

verus! {

/// The PCG-style integer hash, as a spec-level function.
pub open spec fn pcg_hash_spec(input: u32) -> u32 {
    let state = input.wrapping_mul(747796405u32).wrapping_add(2891336453u32);
    let shift = ((state >> 28u32) + 4) as u32;
    let word = ((state >> shift) ^ state).wrapping_mul(277803737u32);
    (word >> 22u32) ^ word
}

/// PCG hash function for deriving deterministic seeds and draw streams.
pub fn pcg_hash(input: u32) -> (r: u32)
    ensures
        r == pcg_hash_spec(input),
{
    let state = input.wrapping_mul(747796405).wrapping_add(2891336453);
    proof {
        assert(state >> 28u32 < 16u32) by (bit_vector);
    }
    let shift = (state >> 28) + 4;
    let word = ((state >> shift) ^ state).wrapping_mul(277803737);
    (word >> 22) ^ word
}

/// The deterministic per-cell seed derived from a coordinate: column hashed
/// together with the hashed row.
pub open spec fn seed_for_spec(x: u32, y: u32) -> u32 {
    pcg_hash_spec(x.wrapping_add(pcg_hash_spec(y)))
}

/// Initial pseudo-random state of the cell at column `x`, row `y`.
pub fn seed_for(x: u32, y: u32) -> (r: u32)
    ensures
        r == seed_for_spec(x, y),
{
    let hy = pcg_hash(y);
    pcg_hash(x.wrapping_add(hy))
}

/// The base of the draw stream of the cell at column `x`, row `y` during
/// the tick seeded with `seed`.
pub open spec fn stream_base_spec(seed: u32, x: u32, y: u32) -> u32 {
    pcg_hash_spec(seed_for_spec(x, y).wrapping_add(pcg_hash_spec(seed)))
}

/// The `k`-th fixed-point uniform draw of the stream rooted at `base`.
pub open spec fn stream_draw_spec(base: u32, k: u32) -> u64 {
    (pcg_hash_spec(base.wrapping_add(k)) as u64) % SCALE
}

/// The eight draws the update rule consumes for one cell in one tick.
pub open spec fn draws_spec(seed: u32, x: u32, y: u32) -> Draws {
    let base = stream_base_spec(seed, x, y);
    Draws {
        s0: stream_draw_spec(base, 0),
        s1: stream_draw_spec(base, 1),
        s2: stream_draw_spec(base, 2),
        s3: stream_draw_spec(base, 3),
        j0: stream_draw_spec(base, 4),
        j1: stream_draw_spec(base, 5),
        j2: stream_draw_spec(base, 6),
        j3: stream_draw_spec(base, 7),
    }
}

/// Compute the draw record of one cell for one tick: deterministic in the
/// tick seed and the cell coordinate.
pub fn draws_for_cell(seed: u32, x: u32, y: u32) -> (d: Draws)
    ensures
        d == draws_spec(seed, x, y),
        d.wf(),
{
    let hs = pcg_hash(seed);
    let sf = seed_for(x, y);
    let base = pcg_hash(sf.wrapping_add(hs));
    Draws {
        s0: (pcg_hash(base.wrapping_add(0)) as u64) % SCALE,
        s1: (pcg_hash(base.wrapping_add(1)) as u64) % SCALE,
        s2: (pcg_hash(base.wrapping_add(2)) as u64) % SCALE,
        s3: (pcg_hash(base.wrapping_add(3)) as u64) % SCALE,
        j0: (pcg_hash(base.wrapping_add(4)) as u64) % SCALE,
        j1: (pcg_hash(base.wrapping_add(5)) as u64) % SCALE,
        j2: (pcg_hash(base.wrapping_add(6)) as u64) % SCALE,
        j3: (pcg_hash(base.wrapping_add(7)) as u64) % SCALE,
    }
}

/// Every draw of a deterministic stream is a fixed-point value below one.
pub proof fn lemma_draws_spec_wf(seed: u32, x: u32, y: u32)
    ensures
        draws_spec(seed, x, y).wf(),
{
}

/// Relies on `rand::thread_rng` and `rand::Rng::gen_range`: a uniformly
/// random value drawn from `[0, bound)`. The draw panics only on an empty
/// range, which the precondition rules out; nothing more can be promised of
/// a random result than its range.
#[verifier::external_body]
pub(crate) fn random_below(bound: u64) -> (r: u64)
    requires
        bound > 0,
    ensures
        r < bound,
{
    rand::Rng::gen_range(&mut rand::thread_rng(), 0..bound)
}

} // verus!
