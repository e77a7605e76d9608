//! The parallel-evaluation discipline: one tick over an immutable snapshot.
//!
//! `step` reads exclusively from the pre-tick grid and writes every result
//! into a fresh collection, so within a tick no computed cell can influence
//! any other — the read region and the write region are distinct storage,
//! exactly the double-buffering contract a pool of parallel workers needs.
//! Per-cell randomness is a deterministic stream derived from the tick seed
//! and the cell's own coordinate, so the result is a pure function of the
//! snapshot and the seed, independent of any worker scheduling order.

use vstd::prelude::*;
use crate::cell::Cell;
use crate::config::SCALE;
use crate::grid::cell_at_spec;
use crate::grid::lemma_flat_index_split;
use crate::grid::neighbors_of_spec;
use crate::grid::partner_of_spec;
use crate::grid::Grid;
use crate::rng::draws_spec;
use crate::rng::pcg_hash;
use crate::rng::pcg_hash_spec;
use crate::rng::draws_for_cell;
use crate::probability::renormalize_spec;
use crate::probability::uniform_spec;
use crate::probability::StateVector;
use crate::rule::blend_spec;
use crate::rule::next_probabilities_spec;
use crate::rule::Draws;
use crate::rule::influence_normalized_spec;
use crate::rule::influence_sum_spec;
use crate::rule::next_cell_spec;
use crate::rule::next_cell_state;
use crate::rule::perturb_spec;
use crate::rule::sync_spec;

verus! {

/// The next state of the cell at row `r`, column `c`, computed entirely
/// from the pre-tick snapshot: its own cell, its partner's pre-tick cell,
/// its eight neighbors' pre-tick cells, and its own deterministic draw
/// stream for the tick seeded with `seed`.
pub open spec fn tick_cell_spec(
    cells: Seq<Cell>,
    width: u32,
    height: u32,
    r: int,
    c: int,
    rf: u64,
    seed: u32,
) -> Cell {
    let cell = cell_at_spec(cells, width as int, r, c);
    next_cell_spec(
        cell,
        partner_of_spec(cells, width as int, height as int, cell),
        neighbors_of_spec(cells, width as int, height as int, r, c),
        draws_spec(seed, c as u32, r as u32),
        rf,
    )
}

/// One whole tick: every coordinate's next state, computed against the one
/// immutable snapshot `cells`.
pub open spec fn step_cells_spec(
    cells: Seq<Cell>,
    width: u32,
    height: u32,
    rf: u64,
    seed: u32,
) -> Seq<Cell> {
    Seq::new(
        cells.len(),
        |i: int|
            tick_cell_spec(cells, width, height, i / (width as int), i % (width as int), rf, seed),
    )
}

/// The seed of tick number `t` of a run seeded with `seed`.
pub open spec fn tick_seed_spec(seed: u32, t: u32) -> u32 {
    pcg_hash_spec(seed.wrapping_add(t))
}

/// Compute the seed of tick number `t`.
pub fn tick_seed(seed: u32, t: u32) -> (r: u32)
    ensures
        r == tick_seed_spec(seed, t),
{
    pcg_hash(seed.wrapping_add(t))
}

/// The grid contents after `n` ticks from `cells`, tick `t` seeded with
/// `tick_seed_spec(seed, t)`.
pub open spec fn run_spec(
    cells: Seq<Cell>,
    width: u32,
    height: u32,
    rf: u64,
    seed: u32,
    n: nat,
) -> Seq<Cell>
    decreases n,
{
    if n == 0 {
        cells
    } else {
        step_cells_spec(
            run_spec(cells, width, height, rf, seed, (n - 1) as nat),
            width,
            height,
            rf,
            tick_seed_spec(seed, (n - 1) as u32),
        )
    }
}

/// One tick preserves the probability invariant of every cell.
pub proof fn lemma_step_preserves_invariant(
    cells: Seq<Cell>,
    width: u32,
    height: u32,
    rf: u64,
    seed: u32,
)
    requires
        cells.len() == (width as int) * (height as int),
        forall|i: int| 0 <= i < cells.len() ==> (#[trigger] cells[i]).wf(),
        rf <= SCALE,
    ensures
        step_cells_spec(cells, width, height, rf, seed).len() == cells.len(),
        forall|i: int|
            0 <= i < cells.len() ==> (#[trigger] step_cells_spec(
                cells,
                width,
                height,
                rf,
                seed,
            )[i]).wf(),
{
    let w = width as int;
    let h = height as int;
    let out = step_cells_spec(cells, width, height, rf, seed);
    assert forall|i: int| 0 <= i < cells.len() implies (#[trigger] out[i]).wf() by {
        assert(w > 0 && h > 0) by (nonlinear_arith)
            requires
                w * h > 0,
                w >= 0,
                h >= 0,
        ;
        lemma_flat_index_split(w, h, i);
        let r = i / w;
        let c = i % w;
        let cell = cell_at_spec(cells, w, r, c);
        assert(cell == cells[i]);
        let partner = partner_of_spec(cells, w, h, cell);
        match cell.entangled_partner {
            Some((x, y)) => {
                vstd::arithmetic::div_mod::lemma_mod_bound(y as int, h);
                vstd::arithmetic::div_mod::lemma_mod_bound(x as int, w);
                crate::grid::lemma_flat_index_bounds(w, h, (y as int) % h, (x as int) % w);
            },
            None => {},
        }
        crate::grid::lemma_neighbor_coords_bounds(r, c, h, w);
        let ns = neighbors_of_spec(cells, w, h, r, c);
        assert forall|k: int| 0 <= k < 8 implies (#[trigger] ns[k]).wf() by {
            let rc = crate::grid::neighbor_coords(r, c, h, w)[k];
            crate::grid::lemma_flat_index_bounds(w, h, rc.0, rc.1);
        }
        let d = draws_spec(seed, c as u32, r as u32);
        crate::rng::lemma_draws_spec_wf(seed, c as u32, r as u32);
        crate::rule::lemma_pipeline_bounds(
            cell.state_probabilities,
            match partner {
                Some(p) => Some(p.state_probabilities),
                None => None,
            },
            ns,
            d,
            rf,
        );
    }
}

/// Law (probability invariant): after any number of ticks, every cell's
/// four components are non-negative and sum to exactly `SCALE`.
pub proof fn lemma_ticks_preserve_invariant(
    cells: Seq<Cell>,
    width: u32,
    height: u32,
    rf: u64,
    seed: u32,
    n: nat,
)
    requires
        cells.len() == (width as int) * (height as int),
        forall|i: int| 0 <= i < cells.len() ==> (#[trigger] cells[i]).wf(),
        rf <= SCALE,
    ensures
        run_spec(cells, width, height, rf, seed, n).len() == cells.len(),
        forall|i: int|
            0 <= i < cells.len() ==> (#[trigger] run_spec(cells, width, height, rf, seed, n)[i]).wf(),
    decreases n,
{
    if n > 0 {
        lemma_ticks_preserve_invariant(cells, width, height, rf, seed, (n - 1) as nat);
        lemma_step_preserves_invariant(
            run_spec(cells, width, height, rf, seed, (n - 1) as nat),
            width,
            height,
            rf,
            tick_seed_spec(seed, (n - 1) as u32),
        );
    }
}

/// Law: a tick never reassigns entanglement — every cell's partner link is
/// carried forward unchanged; links change only at grid initialization.
pub proof fn lemma_step_preserves_links(
    cells: Seq<Cell>,
    width: u32,
    height: u32,
    rf: u64,
    seed: u32,
)
    requires
        cells.len() == (width as int) * (height as int),
    ensures
        forall|i: int|
            0 <= i < cells.len() ==> (#[trigger] step_cells_spec(
                cells,
                width,
                height,
                rf,
                seed,
            )[i]).entangled_partner == cells[i].entangled_partner,
{
    let w = width as int;
    let h = height as int;
    let out = step_cells_spec(cells, width, height, rf, seed);
    assert forall|i: int|
        0 <= i < cells.len() implies (#[trigger] out[i]).entangled_partner
        == cells[i].entangled_partner by {
        assert(w > 0 && h > 0) by (nonlinear_arith)
            requires
                w * h > 0,
                w >= 0,
                h >= 0,
        ;
        lemma_flat_index_split(w, h, i);
        assert(cell_at_spec(cells, w, i / w, i % w) == cells[i]);
    }
}

/// Law (determinism): two runs from equal snapshots with equal seeds agree
/// at every tick. The evaluation consumes no randomness beyond the seeded
/// per-cell streams, so the whole run is a function of grid and seed.
pub proof fn lemma_evaluation_deterministic(
    cells1: Seq<Cell>,
    cells2: Seq<Cell>,
    width: u32,
    height: u32,
    rf: u64,
    seed1: u32,
    seed2: u32,
)
    requires
        cells1 == cells2,
        seed1 == seed2,
    ensures
        forall|n: nat| #[trigger] run_spec(cells1, width, height, rf, seed1, n) == run_spec(
            cells2,
            width,
            height,
            rf,
            seed2,
            n,
        ),
{
}

/// Law (snapshot isolation): the next state of a coordinate is a function
/// of pre-tick cells alone — its own, its partner's, and its eight
/// neighbors'. Two snapshots that agree on those cells yield the same next
/// state there, whatever else differs; in particular no cell computed in
/// the same tick can influence it.
pub proof fn lemma_snapshot_isolation(
    cells1: Seq<Cell>,
    cells2: Seq<Cell>,
    width: u32,
    height: u32,
    r: int,
    c: int,
    rf: u64,
    seed: u32,
)
    requires
        cell_at_spec(cells1, width as int, r, c) == cell_at_spec(cells2, width as int, r, c),
        partner_of_spec(
            cells1,
            width as int,
            height as int,
            cell_at_spec(cells1, width as int, r, c),
        ) == partner_of_spec(
            cells2,
            width as int,
            height as int,
            cell_at_spec(cells2, width as int, r, c),
        ),
        neighbors_of_spec(cells1, width as int, height as int, r, c) == neighbors_of_spec(
            cells2,
            width as int,
            height as int,
            r,
            c,
        ),
    ensures
        tick_cell_spec(cells1, width, height, r, c, rf, seed) == tick_cell_spec(
            cells2,
            width,
            height,
            r,
            c,
            rf,
            seed,
        ),
{
}

/// Law (zero-noise fixed point): a grid whose cells all hold the uniform
/// distribution is unchanged by a tick with randomness factor zero —
/// synchronization never fires, the neighbor consensus of a uniform field
/// is uniform, blending a vector with itself is the identity, and
/// renormalizing an already normalized vector is the identity.
/// Under zero randomness factor, the probability pipeline maps a uniform
/// cell among uniform neighbors to itself, whatever the partner and the
/// draws: synchronization never fires, the neighbor consensus of a uniform
/// field is uniform, blending a vector with itself is the identity, the
/// noise is zero, and renormalizing a normalized vector is the identity.
#[verifier::rlimit(100)]
pub proof fn lemma_uniform_pipeline_identity(
    partner_probs: Option<StateVector>,
    ns: Seq<Cell>,
    d: Draws,
)
    requires
        ns.len() == 8,
        forall|k: int| 0 <= k < 8 ==> (#[trigger] ns[k]).state_probabilities == uniform_spec(),
    ensures
        next_probabilities_spec(uniform_spec(), partner_probs, ns, d, 0) == uniform_spec(),
{
    let u = uniform_spec();
    assert(u.p0 == 250000u64 && u.p1 == 250000u64 && u.p2 == 250000u64 && u.p3 == 250000u64);
    assert(sync_spec(u, partner_probs, d, 0) == u);
    let raw = influence_sum_spec(ns);
    assert(ns[0].state_probabilities.p0 == 250000u64);
    assert(raw.p0 == 2000000u64 && raw.p1 == 2000000u64 && raw.p2 == 2000000u64 && raw.p3
        == 2000000u64);
    let consensus = influence_normalized_spec(raw);
    assert(raw.total() == 8000000);
    assert(2000000 * (SCALE as int) / 8000000 == 250000);
    assert(consensus == u);
    let blended = blend_spec(u, consensus);
    assert((250000 + 250000) / 2 == 250000);
    assert(blended == u);
    let perturbed = perturb_spec(blended, d, 0);
    assert(d.j0 * 0 == 0 && 0int / (SCALE as int) == 0);
    assert(perturbed == u);
    assert(perturbed.total() == SCALE);
    assert(250000 * (SCALE as int) / (SCALE as int) == 250000);
    assert(renormalize_spec(perturbed) == u);
}

/// Law (zero-noise fixed point): a grid whose cells all hold the uniform
/// distribution is unchanged by a tick with randomness factor zero.
pub proof fn lemma_uniform_zero_noise_fixed_point(
    cells: Seq<Cell>,
    width: u32,
    height: u32,
    seed: u32,
)
    requires
        width >= 1,
        height >= 1,
        cells.len() == (width as int) * (height as int),
        forall|i: int|
            0 <= i < cells.len() ==> (#[trigger] cells[i]).state_probabilities == uniform_spec(),
    ensures
        step_cells_spec(cells, width, height, 0, seed) == cells,
{
    let w = width as int;
    let h = height as int;
    let out = step_cells_spec(cells, width, height, 0, seed);
    assert forall|i: int| 0 <= i < cells.len() implies out[i] == cells[i] by {
        lemma_flat_index_split(w, h, i);
        let r = i / w;
        let c = i % w;
        let cell = cell_at_spec(cells, w, r, c);
        assert(cell == cells[i]);
        let d = draws_spec(seed, c as u32, r as u32);
        let partner = partner_of_spec(cells, w, h, cell);
        let partner_probs = match partner {
            Some(pc) => Some(pc.state_probabilities),
            None => None,
        };
        crate::grid::lemma_neighbor_coords_bounds(r, c, h, w);
        let ns = neighbors_of_spec(cells, w, h, r, c);
        assert forall|k: int|
            0 <= k < 8 implies (#[trigger] ns[k]).state_probabilities == uniform_spec() by {
            let rc = crate::grid::neighbor_coords(r, c, h, w)[k];
            crate::grid::lemma_flat_index_bounds(w, h, rc.0, rc.1);
        }
        lemma_uniform_pipeline_identity(partner_probs, ns, d);
        assert(out[i] == cells[i]);
    }
    assert(out =~= cells);
}

impl Grid {
    /// Advance the grid by exactly one tick. Every output cell is computed
    /// against the single immutable pre-tick snapshot `self`, never against
    /// any freshly computed cell, and is written into a fresh region; the
    /// caller decides when to adopt the result as current.
    pub fn step(&self, rf: u64, seed: u32) -> (next: Grid)
        requires
            self.wf(),
            rf <= SCALE,
        ensures
            next.width == self.width,
            next.height == self.height,
            next.wf(),
            next.cells@ == step_cells_spec(self.cells@, self.width, self.height, rf, seed),
    {
        let w = self.width as usize;
        let h = self.height as usize;
        let ghost target = step_cells_spec(self.cells@, self.width, self.height, rf, seed);
        let mut cells: Vec<Cell> = Vec::new();
        let mut r: usize = 0;
        while r < h
            invariant
                r <= h,
                w == self.width,
                h == self.height,
                self.wf(),
                rf <= SCALE,
                target == step_cells_spec(self.cells@, self.width, self.height, rf, seed),
                cells@.len() == r * w,
                cells@.len() <= self.cells@.len(),
                forall|i: int| 0 <= i < cells@.len() ==> cells@[i] == target[i],
                forall|i: int| 0 <= i < cells@.len() ==> (#[trigger] cells@[i]).wf(),
            decreases h - r,
        {
            proof {
                assert((r + 1) * w == r * w + w) by (nonlinear_arith);
                assert((r + 1) * w <= (self.width as int) * (self.height as int))
                    by (nonlinear_arith)
                    requires
                        r < h,
                        w == self.width,
                        h == self.height,
                ;
                assert((self.width as int) * (self.height as int) == self.cells@.len());
            }
            let mut c: usize = 0;
            while c < w
                invariant
                    c <= w,
                    r < h,
                    w == self.width,
                    h == self.height,
                    self.wf(),
                    rf <= SCALE,
                    target == step_cells_spec(self.cells@, self.width, self.height, rf, seed),
                    r * w + w <= self.cells@.len(),
                    cells@.len() == r * w + c,
                    forall|i: int| 0 <= i < cells@.len() ==> cells@[i] == target[i],
                    forall|i: int| 0 <= i < cells@.len() ==> (#[trigger] cells@[i]).wf(),
                decreases w - c,
            {
                let current = self.get_cell(r, c);
                let partner = self.partner_of(&current);
                let neighbors = self.get_neighbors(r, c);
                let draws = draws_for_cell(seed, c as u32, r as u32);
                let next_cell = next_cell_state(&current, partner, &neighbors, &draws, rf);
                proof {
                    let i = r * w + c;
                    lemma_flat_index_split(w as int, h as int, i as int);
                    assert(i / (w as int) == r && i % (w as int) == c) by {
                        vstd::arithmetic::div_mod::lemma_fundamental_div_mod_converse(
                            i as int,
                            w as int,
                            r as int,
                            c as int,
                        );
                    }
                    assert(next_cell == target[i as int]);
                }
                cells.push(next_cell);
                c = c + 1;
            }
            r = r + 1;
        }
        proof {
            assert((self.height as int) * (self.width as int) == (self.width as int) * (
            self.height as int)) by (nonlinear_arith);
            assert(cells@ =~= target);
        }
        Grid { cells, width: self.width, height: self.height }
    }

    /// Advance this grid in place by one tick: compute the tick against the
    /// current snapshot, then publish the fresh region as the new state.
    pub fn update(&mut self, rf: u64, seed: u32)
        requires
            old(self).wf(),
            rf <= SCALE,
        ensures
            final(self).wf(),
            final(self).width == old(self).width,
            final(self).height == old(self).height,
            final(self).cells@ == step_cells_spec(
                old(self).cells@,
                old(self).width,
                old(self).height,
                rf,
                seed,
            ),
    {
        let next = self.step(rf, seed);
        *self = next;
    }

    /// Run `ticks` consecutive ticks, tick `t` seeded deterministically
    /// with `tick_seed_spec(seed, t)`.
    pub fn run_ticks(&mut self, ticks: u32, rf: u64, seed: u32)
        requires
            old(self).wf(),
            rf <= SCALE,
        ensures
            final(self).wf(),
            final(self).width == old(self).width,
            final(self).height == old(self).height,
            final(self).cells@ == run_spec(
                old(self).cells@,
                old(self).width,
                old(self).height,
                rf,
                seed,
                ticks as nat,
            ),
    {
        let mut t: u32 = 0;
        while t < ticks
            invariant
                t <= ticks,
                rf <= SCALE,
                self.wf(),
                self.width == old(self).width,
                self.height == old(self).height,
                self.cells@ == run_spec(
                    old(self).cells@,
                    old(self).width,
                    old(self).height,
                    rf,
                    seed,
                    t as nat,
                ),
            decreases ticks - t,
        {
            let s = tick_seed(seed, t);
            self.update(rf, s);
            t = t + 1;
        }
    }
}

} // verus!
