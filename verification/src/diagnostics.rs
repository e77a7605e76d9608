//! Read-only diagnostics: dominant-state classification, the grid-wide
//! histogram, and per-coordinate neighbor summaries. Nothing here feeds
//! back into the simulation.

use vstd::prelude::*;
use crate::cell::Cell;
use crate::grid::Grid;
use crate::probability::StateVector;

verus! {

/// The dominant state of a vector: the index of its largest component,
/// the earliest index winning ties.
pub open spec fn dominant_index_spec(v: StateVector) -> int {
    if v.p0 >= v.p1 && v.p0 >= v.p2 && v.p0 >= v.p3 {
        0
    } else if v.p1 >= v.p2 && v.p1 >= v.p3 {
        1
    } else if v.p2 >= v.p3 {
        2
    } else {
        3
    }
}

/// Compute the dominant state index of a vector: the arg-max component,
/// ties broken toward the first index. Total over every vector — over
/// integer weights an arg-max is always well defined — so the result is a
/// valid state index that no other component exceeds and that no earlier
/// component equals.
pub fn dominant_index(v: &StateVector) -> (i: usize)
    ensures
        i == dominant_index_spec(*v),
        i < 4,
        forall|j: int| 0 <= j < 4 ==> v.comp(j) <= v.comp(i as int),
        forall|j: int| 0 <= j < i ==> v.comp(j) < v.comp(i as int),
{
    if v.p0 >= v.p1 && v.p0 >= v.p2 && v.p0 >= v.p3 {
        0
    } else if v.p1 >= v.p2 && v.p1 >= v.p3 {
        1
    } else if v.p2 >= v.p3 {
        2
    } else {
        3
    }
}

/// Dominant-state counts over a whole grid: cells dominated by basic state
/// 0, by basic state 1, and by either of the two complex states.
#[derive(Clone, Copy, Debug, PartialEq)]
pub struct StateDistribution {
    pub one: usize,
    pub minus_one: usize,
    pub complex: usize,
}

/// The histogram bucket of one cell: 0 or 1 after its dominant state, 2 for
/// both complex states.
pub open spec fn bucket_of(cell: Cell) -> int {
    let d = dominant_index_spec(cell.state_probabilities);
    if d == 0 {
        0
    } else if d == 1 {
        1
    } else {
        2
    }
}

/// How many cells of `cells` fall in histogram bucket `b`.
pub open spec fn count_bucket(cells: Seq<Cell>, b: int) -> nat
    decreases cells.len(),
{
    if cells.len() == 0 {
        0
    } else {
        count_bucket(cells.drop_last(), b) + if bucket_of(cells.last()) == b {
            1nat
        } else {
            0nat
        }
    }
}

/// How many cells of `cells` have dominant state `d`.
pub open spec fn count_dominant(cells: Seq<Cell>, d: int) -> nat
    decreases cells.len(),
{
    if cells.len() == 0 {
        0
    } else {
        count_dominant(cells.drop_last(), d) + if dominant_index_spec(
            cells.last().state_probabilities,
        ) == d {
            1nat
        } else {
            0nat
        }
    }
}

/// The summed real-axis weight of a set of cells: basic state 0 minus basic
/// state 1, per cell.
pub open spec fn real_weight_sum(cells: Seq<Cell>) -> int
    decreases cells.len(),
{
    if cells.len() == 0 {
        0
    } else {
        real_weight_sum(cells.drop_last()) + cells.last().state_probabilities.p0
            - cells.last().state_probabilities.p1
    }
}

/// The summed imaginary-axis weight of a set of cells: basic state 2 minus
/// basic state 3, per cell.
pub open spec fn imag_weight_sum(cells: Seq<Cell>) -> int
    decreases cells.len(),
{
    if cells.len() == 0 {
        0
    } else {
        imag_weight_sum(cells.drop_last()) + cells.last().state_probabilities.p2
            - cells.last().state_probabilities.p3
    }
}

/// Counts of the eight neighbors of a coordinate by dominant state: basic
/// state 0 (`one_or_i`), basic state 2 (`i`) and basic state 3 (`minus_i`);
/// a neighbor dominated by basic state 1 falls in no bucket.
#[derive(Clone, Copy, Debug, PartialEq)]
pub struct NeighborCount {
    pub one_or_i: usize,
    pub minus_i: usize,
    pub i: usize,
}

impl Grid {
    /// Classify every cell by its dominant component and return the three
    /// bucket counts; ties go to the first index. The counts partition the
    /// grid: they always sum to the number of cells.
    pub fn calculate_state_distribution(&self) -> (dist: StateDistribution)
        ensures
            dist.one == count_bucket(self.cells@, 0),
            dist.minus_one == count_bucket(self.cells@, 1),
            dist.complex == count_bucket(self.cells@, 2),
            dist.one + dist.minus_one + dist.complex == self.cells@.len(),
    {
        let mut one: usize = 0;
        let mut minus_one: usize = 0;
        let mut complex: usize = 0;
        let mut i: usize = 0;
        while i < self.cells.len()
            invariant
                i <= self.cells@.len(),
                one == count_bucket(self.cells@.subrange(0, i as int), 0),
                minus_one == count_bucket(self.cells@.subrange(0, i as int), 1),
                complex == count_bucket(self.cells@.subrange(0, i as int), 2),
                one + minus_one + complex == i,
            decreases self.cells@.len() - i,
        {
            let d = dominant_index(&self.cells[i].state_probabilities);
            if d == 0 {
                one = one + 1;
            } else if d == 1 {
                minus_one = minus_one + 1;
            } else {
                complex = complex + 1;
            }
            proof {
                let pre = self.cells@.subrange(0, i as int);
                let post = self.cells@.subrange(0, i + 1 as int);
                assert(post.drop_last() =~= pre);
                assert(post.last() == self.cells@[i as int]);
            }
            i = i + 1;
        }
        proof {
            assert(self.cells@.subrange(0, self.cells@.len() as int) =~= self.cells@);
        }
        StateDistribution { one, minus_one, complex }
    }

    /// Count the eight neighbors of `(row, col)` by dominant state.
    pub fn count_neighbors(&self, row: usize, col: usize) -> (count: NeighborCount)
        requires
            self.wf(),
            row < self.height,
            col < self.width,
        ensures
            count.one_or_i == count_dominant(self.neighbors_spec(row as int, col as int), 0),
            count.i == count_dominant(self.neighbors_spec(row as int, col as int), 2),
            count.minus_i == count_dominant(self.neighbors_spec(row as int, col as int), 3),
    {
        let ns = self.get_neighbors(row, col);
        let mut one_or_i: usize = 0;
        let mut minus_i: usize = 0;
        let mut ci: usize = 0;
        let mut k: usize = 0;
        while k < ns.len()
            invariant
                k <= ns@.len(),
                ns@.len() == 8,
                ns@ == self.neighbors_spec(row as int, col as int),
                one_or_i == count_dominant(ns@.subrange(0, k as int), 0),
                ci == count_dominant(ns@.subrange(0, k as int), 2),
                minus_i == count_dominant(ns@.subrange(0, k as int), 3),
                one_or_i <= k && ci <= k && minus_i <= k,
            decreases ns@.len() - k,
        {
            let d = dominant_index(&ns[k].state_probabilities);
            if d == 0 {
                one_or_i = one_or_i + 1;
            } else if d == 2 {
                ci = ci + 1;
            } else if d == 3 {
                minus_i = minus_i + 1;
            }
            proof {
                let pre = ns@.subrange(0, k as int);
                let post = ns@.subrange(0, k + 1 as int);
                assert(post.drop_last() =~= pre);
                assert(post.last() == ns@[k as int]);
            }
            k = k + 1;
        }
        proof {
            assert(ns@.subrange(0, ns@.len() as int) =~= ns@);
        }
        NeighborCount { one_or_i, minus_i, i: ci }
    }

    /// Sum the real-axis and imaginary-axis weights of the eight neighbors
    /// of `(row, col)`: per neighbor, basic state 0 minus basic state 1 and
    /// basic state 2 minus basic state 3.
    pub fn sum_neighbors_complex(&self, row: usize, col: usize) -> (sums: (i64, i64))
        requires
            self.wf(),
            row < self.height,
            col < self.width,
        ensures
            sums.0 == real_weight_sum(self.neighbors_spec(row as int, col as int)),
            sums.1 == imag_weight_sum(self.neighbors_spec(row as int, col as int)),
    {
        let ns = self.get_neighbors(row, col);
        let mut sum_real: i64 = 0;
        let mut sum_imag: i64 = 0;
        let mut k: usize = 0;
        while k < ns.len()
            invariant
                k <= ns@.len(),
                ns@.len() == 8,
                ns@ == self.neighbors_spec(row as int, col as int),
                forall|j: int| 0 <= j < 8 ==> (#[trigger] ns@[j]).wf(),
                sum_real == real_weight_sum(ns@.subrange(0, k as int)),
                sum_imag == imag_weight_sum(ns@.subrange(0, k as int)),
                -(k * (crate::config::SCALE as int)) <= sum_real <= k * (
                crate::config::SCALE as int),
                -(k * (crate::config::SCALE as int)) <= sum_imag <= k * (
                crate::config::SCALE as int),
            decreases ns@.len() - k,
        {
            proof {
                assert(ns@[k as int].wf());
                ns@[k as int].state_probabilities.lemma_wf_bounds();
            }
            let v = ns[k].state_probabilities;
            sum_real = sum_real + (v.p0 as i64 - v.p1 as i64);
            sum_imag = sum_imag + (v.p2 as i64 - v.p3 as i64);
            proof {
                let pre = ns@.subrange(0, k as int);
                let post = ns@.subrange(0, k + 1 as int);
                assert(post.drop_last() =~= pre);
                assert(post.last() == ns@[k as int]);
            }
            k = k + 1;
        }
        proof {
            assert(ns@.subrange(0, ns@.len() as int) =~= ns@);
        }
        (sum_real, sum_imag)
    }
}

} // verus!
