//! Fixed-point probability vectors over the four basic states.
//!
//! A `StateVector` assigns each of the four basic states a non-negative
//! fixed-point weight; the vector is well formed when the weights sum to
//! exactly `SCALE`. Renormalization restores that invariant after the
//! update rule has perturbed a vector.

use vstd::prelude::*;
use crate::config::SCALE;

verus! {

use vstd::arithmetic::div_mod::lemma_div_is_ordered;
use vstd::arithmetic::div_mod::lemma_div_pos_is_pos;
use vstd::arithmetic::div_mod::lemma_div_multiples_vanish;
use vstd::arithmetic::div_mod::lemma_fundamental_div_mod;

/// A four-way probability distribution in fixed-point form: component `k`
/// is the probability of basic state `k`, scaled by `SCALE`.
#[derive(Clone, Copy, Debug, PartialEq)]
pub struct StateVector {
    pub p0: u64,
    pub p1: u64,
    pub p2: u64,
    pub p3: u64,
}

impl StateVector {
    /// The exact total weight of the four components.
    pub open spec fn total(self) -> int {
        self.p0 + self.p1 + self.p2 + self.p3
    }

    /// The probability invariant: the weights sum to exactly `SCALE`.
    pub open spec fn wf(self) -> bool {
        self.total() == SCALE
    }

    /// Component by position, for contracts that quantify over indices.
    pub open spec fn comp(self, i: int) -> int {
        if i == 0 {
            self.p0 as int
        } else if i == 1 {
            self.p1 as int
        } else if i == 2 {
            self.p2 as int
        } else {
            self.p3 as int
        }
    }

    /// Every component is at most `b`.
    pub open spec fn bounded_by(self, b: int) -> bool {
        self.p0 <= b && self.p1 <= b && self.p2 <= b && self.p3 <= b
    }

    /// A well-formed vector has no component above `SCALE`.
    pub proof fn lemma_wf_bounds(self)
        requires
            self.wf(),
        ensures
            self.bounded_by(SCALE as int),
    {
    }

    /// A well-formed vector has a component of at least a quarter of the
    /// total weight; in particular it is never all-zero.
    pub proof fn lemma_wf_has_large_component(self)
        requires
            self.wf(),
        ensures
            self.p0 >= SCALE / 4 || self.p1 >= SCALE / 4 || self.p2 >= SCALE / 4
                || self.p3 >= SCALE / 4,
    {
    }

    /// The uniform distribution: every state carries a quarter of the weight.
    pub fn uniform() -> (v: StateVector)
        ensures
            v == uniform_spec(),
            v.wf(),
    {
        StateVector { p0: SCALE / 4, p1: SCALE / 4, p2: SCALE / 4, p3: SCALE / 4 }
    }
}

/// The uniform distribution as a spec value.
pub open spec fn uniform_spec() -> StateVector {
    StateVector {
        p0: (SCALE / 4) as u64,
        p1: (SCALE / 4) as u64,
        p2: (SCALE / 4) as u64,
        p3: (SCALE / 4) as u64,
    }
}

/// One renormalized component: weight `c` out of a total of `s`, rescaled so
/// that the whole vector totals `SCALE`, rounded down.
pub open spec fn scaled(c: int, s: int) -> int {
    c * SCALE / s
}

/// Renormalization: components 1 to 3 are rescaled by floor division and the
/// rounding slack is folded into component 0, so the new total is exactly
/// `SCALE` whenever the old total was positive.
pub open spec fn renormalize_spec(v: StateVector) -> StateVector {
    let s = v.total();
    StateVector {
        p0: (SCALE - scaled(v.p1 as int, s) - scaled(v.p2 as int, s) - scaled(
            v.p3 as int,
            s,
        )) as u64,
        p1: scaled(v.p1 as int, s) as u64,
        p2: scaled(v.p2 as int, s) as u64,
        p3: scaled(v.p3 as int, s) as u64,
    }
}

/// Floor division is sub-additive over a sum of non-negative numerators.
proof fn lemma_div_sum_le(x: int, y: int, d: int)
    requires
        0 <= x,
        0 <= y,
        0 < d,
    ensures
        x / d + y / d <= (x + y) / d,
{
    lemma_fundamental_div_mod(x, d);
    lemma_fundamental_div_mod(y, d);
    lemma_fundamental_div_mod(x + y, d);
    let q = (x + y) / d;
    let q1 = x / d;
    let q2 = y / d;
    assert(d * (q - q1 - q2) == x % d + y % d - (x + y) % d) by (nonlinear_arith)
        requires
            x == d * q1 + x % d,
            y == d * q2 + y % d,
            x + y == d * q + (x + y) % d,
    ;
    assert(q - q1 - q2 >= 0) by (nonlinear_arith)
        requires
            d * (q - q1 - q2) > -d,
            0 < d,
    ;
}

/// The rescaled components of a positive-total vector are non-negative,
/// individually at most `SCALE`, and jointly at most `SCALE`; hence the
/// renormalized vector is well formed.
pub proof fn lemma_renormalize_wf(v: StateVector)
    requires
        v.total() > 0,
    ensures
        renormalize_spec(v).wf(),
        renormalize_spec(v).bounded_by(SCALE as int),
        0 <= scaled(v.p1 as int, v.total()),
        0 <= scaled(v.p2 as int, v.total()),
        0 <= scaled(v.p3 as int, v.total()),
        scaled(v.p1 as int, v.total()) + scaled(v.p2 as int, v.total()) + scaled(
            v.p3 as int,
            v.total(),
        ) <= SCALE,
{
    let s = v.total();
    lemma_div_pos_is_pos(v.p1 * SCALE, s);
    lemma_div_pos_is_pos(v.p2 * SCALE, s);
    lemma_div_pos_is_pos(v.p3 * SCALE, s);
    lemma_div_sum_le(v.p1 * SCALE, v.p2 * SCALE, s);
    lemma_div_sum_le(v.p1 * SCALE + v.p2 * SCALE, v.p3 * SCALE, s);
    lemma_div_is_ordered((v.p1 + v.p2 + v.p3) * SCALE, s * SCALE, s);
    lemma_div_multiples_vanish(SCALE as int, s);
    assert(s * SCALE == SCALE * s);
    assert((v.p1 + v.p2 + v.p3) * SCALE == v.p1 * SCALE + v.p2 * SCALE + v.p3 * SCALE);
}

/// Divide every component by the current total, in fixed point, so that the
/// result sums to exactly `SCALE` again. The rounding slack of the three
/// floor divisions is folded into component 0.
pub fn renormalize(v: &StateVector) -> (w: StateVector)
    requires
        v.total() > 0,
        v.bounded_by(4 * SCALE),
    ensures
        w == renormalize_spec(*v),
        w.wf(),
        w.bounded_by(SCALE as int),
{
    let s = v.p0 + v.p1 + v.p2 + v.p3;
    proof {
        lemma_renormalize_wf(*v);
    }
    let w1 = v.p1 * SCALE / s;
    let w2 = v.p2 * SCALE / s;
    let w3 = v.p3 * SCALE / s;
    let w0 = SCALE - (w1 + w2 + w3);
    StateVector { p0: w0, p1: w1, p2: w2, p3: w3 }
}

} // verus!
