//! The toroidal grid: cell storage, randomized initialization, and neighbor
//! and partner resolution with wraparound.
//!
//! Cells are stored row-major in a flat collection of length
//! `width * height`. Both axes wrap, so every cell has exactly eight
//! neighbors (the sites at Chebyshev distance one, the center excluded).
//! Every coordinate used in a partner link or a neighbor lookup is reduced
//! modulo the dimensions before indexing, so no out-of-range offset is ever
//! dereferenced.
//!
//! Two randomized initialization policies are offered: `new` draws a
//! dominant-biased distribution per cell (a randomly chosen dominant state
//! with half to four fifths of the weight), `new_uniform` draws four
//! unconstrained weights and renormalizes. Both renormalize to a valid
//! probability vector, and both assign each cell, with a configurable
//! probability, a uniformly random in-bounds entangled partner.

use vstd::prelude::*;
use crate::cell::Cell;
use crate::config::ENTANGLEMENT_PROBABILITY;
use crate::config::GRID_HEIGHT;
use crate::config::GRID_WIDTH;
use crate::config::SCALE;
use crate::probability::lemma_renormalize_wf;
use crate::probability::renormalize;
use crate::probability::renormalize_spec;
use crate::probability::uniform_spec;
use crate::probability::StateVector;
use crate::rng::random_below;

verus! {

use vstd::arithmetic::div_mod::lemma_small_mod;
use vstd::arithmetic::div_mod::lemma_mod_self_0;
use vstd::arithmetic::div_mod::lemma_mod_multiples_vanish;

/// One wraparound step toward smaller indices on an axis of length `n`.
pub open spec fn wrap_dec(i: int, n: int) -> int {
    if i == 0 {
        n - 1
    } else {
        i - 1
    }
}

/// One wraparound step toward larger indices on an axis of length `n`.
pub open spec fn wrap_inc(i: int, n: int) -> int {
    if i + 1 == n {
        0
    } else {
        i + 1
    }
}

/// Law: the wraparound steps agree with reduction modulo the axis length.
pub proof fn lemma_wrap_is_mod(i: int, n: int)
    requires
        0 <= i < n,
    ensures
        wrap_dec(i, n) == (i + n - 1) % n,
        wrap_inc(i, n) == (i + 1) % n,
{
    if i == 0 {
        lemma_small_mod((n - 1) as nat, n as nat);
    } else {
        lemma_mod_multiples_vanish(1, i - 1, n);
        lemma_small_mod((i - 1) as nat, n as nat);
    }
    if i + 1 == n {
        lemma_mod_self_0(n);
    } else {
        lemma_small_mod((i + 1) as nat, n as nat);
    }
}

/// The eight neighbor coordinates of `(r, c)` on a `height` by `width`
/// torus, in fixed row-major offset order with the center skipped.
pub open spec fn neighbor_coords(r: int, c: int, height: int, width: int) -> Seq<(int, int)> {
    seq![
        (wrap_dec(r, height), wrap_dec(c, width)),
        (wrap_dec(r, height), c),
        (wrap_dec(r, height), wrap_inc(c, width)),
        (r, wrap_dec(c, width)),
        (r, wrap_inc(c, width)),
        (wrap_inc(r, height), wrap_dec(c, width)),
        (wrap_inc(r, height), c),
        (wrap_inc(r, height), wrap_inc(c, width)),
    ]
}

/// Every neighbor coordinate of an in-bounds coordinate is in bounds.
pub proof fn lemma_neighbor_coords_bounds(r: int, c: int, height: int, width: int)
    requires
        0 <= r < height,
        0 <= c < width,
    ensures
        forall|k: int|
            0 <= k < 8 ==> {
                let rc = #[trigger] neighbor_coords(r, c, height, width)[k];
                0 <= rc.0 < height && 0 <= rc.1 < width
            },
{
}

/// Law (toroidal correctness): the neighbor set of the origin wraps to the
/// opposite corner. Its first entry is `(height - 1, width - 1)`, and every
/// entry is an in-bounds coordinate, so no lookup ever needs a negative
/// index.
pub proof fn lemma_toroidal_neighbors(height: int, width: int)
    requires
        1 <= height,
        1 <= width,
    ensures
        neighbor_coords(0, 0, height, width)[0] == (height - 1, width - 1),
        forall|k: int|
            0 <= k < 8 ==> {
                let rc = #[trigger] neighbor_coords(0, 0, height, width)[k];
                0 <= rc.0 < height && 0 <= rc.1 < width
            },
{
    lemma_neighbor_coords_bounds(0, 0, height, width);
}

/// The cell of a row-major collection at row `r`, column `c`.
pub open spec fn cell_at_spec(cells: Seq<Cell>, width: int, r: int, c: int) -> Cell {
    cells[r * width + c]
}

/// The eight neighbors of `(r, c)` in a row-major collection of the given
/// dimensions, in fixed row-major offset order.
pub open spec fn neighbors_of_spec(
    cells: Seq<Cell>,
    width: int,
    height: int,
    r: int,
    c: int,
) -> Seq<Cell> {
    Seq::new(
        8,
        |k: int|
            {
                let rc = neighbor_coords(r, c, height, width)[k];
                cell_at_spec(cells, width, rc.0, rc.1)
            },
    )
}

/// The pre-tick state of `cell`'s entangled partner in a row-major
/// collection, the stored coordinate reduced modulo the dimensions.
pub open spec fn partner_of_spec(
    cells: Seq<Cell>,
    width: int,
    height: int,
    cell: Cell,
) -> Option<Cell> {
    match cell.entangled_partner {
        Some((x, y)) => Some(cell_at_spec(cells, width, (y as int) % height, (x as int) % width)),
        None => None,
    }
}

/// The flat index of an in-bounds coordinate lies in range.
pub proof fn lemma_flat_index_bounds(width: int, height: int, r: int, c: int)
    requires
        0 <= r < height,
        0 <= c < width,
    ensures
        0 <= r * width + c < width * height,
{
    assert(r * width + c < width * height) by (nonlinear_arith)
        requires
            0 <= r < height,
            0 <= c < width,
    ;
}

/// Splitting a flat index back into its row and column.
pub proof fn lemma_flat_index_split(width: int, height: int, i: int)
    requires
        0 < width,
        0 <= i < width * height,
    ensures
        0 <= i / width < height,
        0 <= i % width < width,
        i == (i / width) * width + i % width,
{
    vstd::arithmetic::div_mod::lemma_fundamental_div_mod(i, width);
    assert(0 <= i % width < width) by {
        vstd::arithmetic::div_mod::lemma_mod_bound(i, width);
    }
    assert(0 <= i / width) by {
        vstd::arithmetic::div_mod::lemma_div_pos_is_pos(i, width);
    }
    assert((i / width) * width == width * (i / width)) by (nonlinear_arith);
    assert(i / width < height) by (nonlinear_arith)
        requires
            0 < width,
            i < width * height,
            i == width * (i / width) + i % width,
            0 <= i % width < width,
            0 <= i / width,
    ;
}

/// A toroidal grid of cells, stored row-major.
pub struct Grid {
    pub cells: Vec<Cell>,
    pub width: u32,
    pub height: u32,
}

impl Grid {
    /// The grid invariant: the collection length matches the declared
    /// dimensions and every cell holds a valid probability vector.
    pub open spec fn wf(self) -> bool {
        &&& self.cells@.len() == (self.width as int) * (self.height as int)
        &&& forall|i: int| 0 <= i < self.cells@.len() ==> (#[trigger] self.cells@[i]).wf()
    }

    /// The cell stored at row `r`, column `c`.
    pub open spec fn cell_at(self, r: int, c: int) -> Cell {
        cell_at_spec(self.cells@, self.width as int, r, c)
    }

    /// The eight neighbors of `(r, c)`, in fixed row-major offset order.
    pub open spec fn neighbors_spec(self, r: int, c: int) -> Seq<Cell> {
        neighbors_of_spec(self.cells@, self.width as int, self.height as int, r, c)
    }

    /// The pre-tick state of a cell's entangled partner, if it has one; the
    /// stored coordinate is reduced modulo the dimensions before the lookup.
    pub open spec fn partner_spec(self, cell: Cell) -> Option<Cell> {
        partner_of_spec(self.cells@, self.width as int, self.height as int, cell)
    }

    /// The flat index of row `r`, column `c`.
    fn index_of(&self, r: usize, c: usize) -> (idx: usize)
        requires
            self.wf(),
            r < self.height,
            c < self.width,
        ensures
            idx == r * (self.width as int) + c,
            idx < self.cells@.len(),
    {
        proof {
            assert(r * (self.width as int) + c < (self.width as int) * (self.height as int))
                by (nonlinear_arith)
                requires
                    0 <= r,
                    0 <= c,
                    r < self.height,
                    c < self.width,
            ;
        }
        // reading the length reminds the verifier that the flat index,
        // being below it, fits in a machine word
        let count = self.cells.len();
        proof {
            assert(r * (self.width as int) + c < count);
        }
        r * (self.width as usize) + c
    }

    /// Read the cell at row `r`, column `c`.
    pub fn get_cell(&self, r: usize, c: usize) -> (cell: Cell)
        requires
            self.wf(),
            r < self.height,
            c < self.width,
        ensures
            cell == self.cell_at(r as int, c as int),
            cell.wf(),
    {
        let idx = self.index_of(r, c);
        self.cells[idx]
    }

    /// The eight neighbors of `(row, col)` with wraparound, in the fixed
    /// row-major offset order.
    pub fn get_neighbors(&self, row: usize, col: usize) -> (ns: Vec<Cell>)
        requires
            self.wf(),
            row < self.height,
            col < self.width,
        ensures
            ns@ == self.neighbors_spec(row as int, col as int),
            ns@.len() == 8,
            forall|k: int| 0 <= k < 8 ==> (#[trigger] ns@[k]).wf(),
    {
        proof {
            lemma_neighbor_coords_bounds(
                row as int,
                col as int,
                self.height as int,
                self.width as int,
            );
        }
        let h = self.height as usize;
        let w = self.width as usize;
        let rm = wrap_dec_exec(row, h);
        let rp = wrap_inc_exec(row, h);
        let cm = wrap_dec_exec(col, w);
        let cp = wrap_inc_exec(col, w);
        let mut ns: Vec<Cell> = Vec::new();
        ns.push(self.get_cell(rm, cm));
        ns.push(self.get_cell(rm, col));
        ns.push(self.get_cell(rm, cp));
        ns.push(self.get_cell(row, cm));
        ns.push(self.get_cell(row, cp));
        ns.push(self.get_cell(rp, cm));
        ns.push(self.get_cell(rp, col));
        ns.push(self.get_cell(rp, cp));
        proof {
            assert(ns@ =~= self.neighbors_spec(row as int, col as int));
        }
        ns
    }

    /// Dereference the stored partner coordinate of `cell`, if present,
    /// reducing it modulo the dimensions first.
    pub fn partner_of(&self, cell: &Cell) -> (partner: Option<Cell>)
        requires
            self.wf(),
            self.width >= 1,
            self.height >= 1,
        ensures
            partner == self.partner_spec(*cell),
            partner matches Some(p) ==> p.wf(),
    {
        match cell.entangled_partner {
            Some((x, y)) => {
                let pr = (y as usize) % (self.height as usize);
                let pc = (x as usize) % (self.width as usize);
                Some(self.get_cell(pr, pc))
            },
            None => None,
        }
    }

    /// Build a grid from explicit parts, refusing mismatched dimensions or
    /// invalid cells: the result is a grid exactly when the collection
    /// length equals `width * height` and every cell's weights sum to
    /// `SCALE`.
    pub fn from_cells(width: u32, height: u32, cells: Vec<Cell>) -> (result: Option<Grid>)
        ensures
            result matches Some(grid) ==> grid.wf() && grid.width == width && grid.height
                == height && grid.cells@ == cells@,
            (result is Some) <==> (cells@.len() == (width as int) * (height as int) && forall|
                i: int,
            | 0 <= i < cells@.len() ==> (#[trigger] cells@[i]).wf()),
    {
        proof {
            assert((width as int) * (height as int) < 0x1_0000_0000_0000_0000) by (nonlinear_arith)
                requires
                    width < 0x1_0000_0000,
                    height < 0x1_0000_0000,
            ;
        }
        let expected = (width as u64) * (height as u64);
        if cells.len() as u64 != expected {
            return None;
        }
        let mut i: usize = 0;
        while i < cells.len()
            invariant
                forall|k: int| 0 <= k < i ==> (#[trigger] cells@[k]).wf(),
                i <= cells@.len(),
                cells@.len() == (width as int) * (height as int),
            decreases cells@.len() - i,
        {
            let v = cells[i].state_probabilities;
            if v.p0 > SCALE || v.p1 > SCALE || v.p2 > SCALE || v.p3 > SCALE {
                return None;
            }
            if v.p0 + v.p1 + v.p2 + v.p3 != SCALE {
                return None;
            }
            i = i + 1;
        }
        Some(Grid { cells, width, height })
    }

    /// Create a grid of the given dimensions with the dominant-biased
    /// random initialization policy: each cell gets a randomly chosen
    /// dominant state carrying between one half and four fifths of the
    /// weight, small jitter on the other states, and, with probability
    /// `ENTANGLEMENT_PROBABILITY`, a uniformly random in-bounds partner.
    pub fn new(width: u32, height: u32) -> (grid: Grid)
        requires
            (width as int) * (height as int) <= usize::MAX,
        ensures
            grid.wf(),
            grid.width == width,
            grid.height == height,
            forall|i: int|
                0 <= i < grid.cells@.len() ==> (#[trigger] grid.cells@[i]).partner_in_bounds(
                    width as int,
                    height as int,
                ),
    {
        let mut cells: Vec<Cell> = Vec::new();
        let h = height as usize;
        let w = width as usize;
        let mut y: usize = 0;
        while y < h
            invariant
                y <= h,
                w == width,
                h == height,
                (width as int) * (height as int) <= usize::MAX,
                cells@.len() == y * w,
                forall|i: int| 0 <= i < cells@.len() ==> (#[trigger] cells@[i]).wf(),
                forall|i: int|
                    0 <= i < cells@.len() ==> (#[trigger] cells@[i]).partner_in_bounds(
                        width as int,
                        height as int,
                    ),
            decreases h - y,
        {
            let mut x: usize = 0;
            proof {
                assert((y + 1) * w == y * w + w) by (nonlinear_arith);
                assert((y + 1) * w <= (width as int) * (height as int)) by (nonlinear_arith)
                    requires
                        y < h,
                        w == width,
                        h == height,
                ;
            }
            while x < w
                invariant
                    x <= w,
                    y < h,
                    w == width,
                    h == height,
                    y * w + w <= (width as int) * (height as int) <= usize::MAX,
                    cells@.len() == y * w + x,
                    forall|i: int| 0 <= i < cells@.len() ==> (#[trigger] cells@[i]).wf(),
                    forall|i: int|
                        0 <= i < cells@.len() ==> (#[trigger] cells@[i]).partner_in_bounds(
                            width as int,
                            height as int,
                        ),
                decreases w - x,
            {
                let partner = draw_partner(width, height);
                let dominant = random_below(4);
                let dom_w = SCALE / 2 + random_below(3 * (SCALE / 10));
                let j1 = random_below(SCALE / 20);
                let j2 = random_below(SCALE / 20);
                let j3 = random_below(SCALE / 20);
                let cell = make_polarized_cell(dominant, dom_w, j1, j2, j3, partner);
                cells.push(cell);
                x = x + 1;
            }
            y = y + 1;
        }
        proof {
            assert((height as int) * (width as int) == (width as int) * (height as int))
                by (nonlinear_arith);
        }
        Grid { cells, width, height }
    }

    /// Create a grid with the plain uniform random initialization policy:
    /// four unconstrained weights per cell, renormalized, and the same
    /// random entanglement assignment as `new`.
    pub fn new_uniform(width: u32, height: u32) -> (grid: Grid)
        requires
            (width as int) * (height as int) <= usize::MAX,
        ensures
            grid.wf(),
            grid.width == width,
            grid.height == height,
            forall|i: int|
                0 <= i < grid.cells@.len() ==> (#[trigger] grid.cells@[i]).partner_in_bounds(
                    width as int,
                    height as int,
                ),
    {
        let mut cells: Vec<Cell> = Vec::new();
        let h = height as usize;
        let w = width as usize;
        let mut y: usize = 0;
        while y < h
            invariant
                y <= h,
                w == width,
                h == height,
                (width as int) * (height as int) <= usize::MAX,
                cells@.len() == y * w,
                forall|i: int| 0 <= i < cells@.len() ==> (#[trigger] cells@[i]).wf(),
                forall|i: int|
                    0 <= i < cells@.len() ==> (#[trigger] cells@[i]).partner_in_bounds(
                        width as int,
                        height as int,
                    ),
            decreases h - y,
        {
            let mut x: usize = 0;
            proof {
                assert((y + 1) * w == y * w + w) by (nonlinear_arith);
                assert((y + 1) * w <= (width as int) * (height as int)) by (nonlinear_arith)
                    requires
                        y < h,
                        w == width,
                        h == height,
                ;
            }
            while x < w
                invariant
                    x <= w,
                    y < h,
                    w == width,
                    h == height,
                    y * w + w <= (width as int) * (height as int) <= usize::MAX,
                    cells@.len() == y * w + x,
                    forall|i: int| 0 <= i < cells@.len() ==> (#[trigger] cells@[i]).wf(),
                    forall|i: int|
                        0 <= i < cells@.len() ==> (#[trigger] cells@[i]).partner_in_bounds(
                            width as int,
                            height as int,
                        ),
                decreases w - x,
            {
                let partner = draw_partner(width, height);
                let r0 = random_below(SCALE);
                let r1 = random_below(SCALE);
                let r2 = random_below(SCALE);
                let r3 = random_below(SCALE);
                let cell = make_uniform_random_cell(r0, r1, r2, r3, partner);
                cells.push(cell);
                x = x + 1;
            }
            y = y + 1;
        }
        proof {
            assert((height as int) * (width as int) == (width as int) * (height as int))
                by (nonlinear_arith);
        }
        Grid { cells, width, height }
    }

    /// Create a grid with the default dimensions.
    pub fn new_default() -> (grid: Grid)
        ensures
            grid.wf(),
            grid.width == GRID_WIDTH,
            grid.height == GRID_HEIGHT,
    {
        Grid::new(GRID_WIDTH, GRID_HEIGHT)
    }
}

/// One executable wraparound step toward smaller indices.
fn wrap_dec_exec(i: usize, n: usize) -> (j: usize)
    requires
        i < n,
    ensures
        j == wrap_dec(i as int, n as int),
        j < n,
{
    if i == 0 {
        n - 1
    } else {
        i - 1
    }
}

/// One executable wraparound step toward larger indices.
fn wrap_inc_exec(i: usize, n: usize) -> (j: usize)
    requires
        i < n,
    ensures
        j == wrap_inc(i as int, n as int),
        j < n,
{
    if i + 1 == n {
        0
    } else {
        i + 1
    }
}

/// Draw the random entanglement assignment of one fresh cell: with
/// probability `ENTANGLEMENT_PROBABILITY` a uniformly random in-bounds
/// coordinate, otherwise none.
fn draw_partner(width: u32, height: u32) -> (partner: Option<(u32, u32)>)
    ensures
        partner matches Some((x, y)) ==> x < width && y < height,
{
    if width == 0 || height == 0 {
        return None;
    }
    if random_below(SCALE) < ENTANGLEMENT_PROBABILITY {
        let px = random_below(width as u64);
        let py = random_below(height as u64);
        Some((px as u32, py as u32))
    } else {
        None
    }
}

/// The dominant-biased raw weight vector before renormalization: the chosen
/// dominant state carries `dom_w`, each other state a third of the rest
/// plus its jitter.
pub open spec fn polarized_vector_spec(
    dominant: u64,
    dom_w: u64,
    j1: u64,
    j2: u64,
    j3: u64,
) -> StateVector {
    let rest = ((SCALE - dom_w) / 3) as u64;
    let o1 = (rest + j1) as u64;
    let o2 = (rest + j2) as u64;
    let o3 = (rest + j3) as u64;
    if dominant == 0 {
        StateVector { p0: dom_w, p1: o1, p2: o2, p3: o3 }
    } else if dominant == 1 {
        StateVector { p0: o1, p1: dom_w, p2: o2, p3: o3 }
    } else if dominant == 2 {
        StateVector { p0: o1, p1: o2, p2: dom_w, p3: o3 }
    } else {
        StateVector { p0: o1, p1: o2, p2: o3, p3: dom_w }
    }
}

/// Build one cell under the dominant-biased policy: the raw dominant-biased
/// vector, renormalized to a valid distribution.
pub fn make_polarized_cell(
    dominant: u64,
    dom_w: u64,
    j1: u64,
    j2: u64,
    j3: u64,
    partner: Option<(u32, u32)>,
) -> (cell: Cell)
    requires
        dominant < 4,
        SCALE / 2 <= dom_w <= SCALE,
        j1 <= SCALE,
        j2 <= SCALE,
        j3 <= SCALE,
    ensures
        cell.state_probabilities == renormalize_spec(
            polarized_vector_spec(dominant, dom_w, j1, j2, j3),
        ),
        cell.wf(),
        cell.entangled_partner == partner,
{
    let rest = (SCALE - dom_w) / 3;
    let o1 = rest + j1;
    let o2 = rest + j2;
    let o3 = rest + j3;
    let raw = if dominant == 0 {
        StateVector { p0: dom_w, p1: o1, p2: o2, p3: o3 }
    } else if dominant == 1 {
        StateVector { p0: o1, p1: dom_w, p2: o2, p3: o3 }
    } else if dominant == 2 {
        StateVector { p0: o1, p1: o2, p2: dom_w, p3: o3 }
    } else {
        StateVector { p0: o1, p1: o2, p2: o3, p3: dom_w }
    };
    proof {
        lemma_renormalize_wf(raw);
    }
    let probs = renormalize(&raw);
    Cell { state_probabilities: probs, entangled_partner: partner }
}

/// Build one cell under the plain uniform policy: four unconstrained raw
/// weights, renormalized; an all-zero draw falls back to the uniform
/// distribution (the probability invariant admits no zero total).
pub fn make_uniform_random_cell(
    r0: u64,
    r1: u64,
    r2: u64,
    r3: u64,
    partner: Option<(u32, u32)>,
) -> (cell: Cell)
    requires
        r0 < SCALE,
        r1 < SCALE,
        r2 < SCALE,
        r3 < SCALE,
    ensures
        cell.state_probabilities == if r0 + r1 + r2 + r3 > 0 {
            renormalize_spec(StateVector { p0: r0, p1: r1, p2: r2, p3: r3 })
        } else {
            uniform_spec()
        },
        cell.wf(),
        cell.entangled_partner == partner,
{
    let raw = StateVector { p0: r0, p1: r1, p2: r2, p3: r3 };
    if r0 + r1 + r2 + r3 > 0 {
        proof {
            lemma_renormalize_wf(raw);
        }
        let probs = renormalize(&raw);
        Cell { state_probabilities: probs, entangled_partner: partner }
    } else {
        let probs = StateVector::uniform();
        Cell { state_probabilities: probs, entangled_partner: partner }
    }
}

} // verus!
