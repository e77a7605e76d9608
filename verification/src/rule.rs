//! The per-cell state-transition rule.
//!
//! A cell's next state is computed from its own pre-tick state, its
//! optional entangled partner's pre-tick state and its eight neighbors'
//! pre-tick states, in five steps: stochastic entanglement synchronization,
//! neighbor influence accumulation, an even blend with the neighbor
//! consensus, additive bounded noise, and a final renormalization that
//! restores the probability invariant exactly.
//!
//! All randomness enters through a `Draws` record of pre-drawn fixed-point
//! uniform values, so the rule itself is a pure function.

use vstd::prelude::*;
use crate::cell::Cell;
use crate::config::SCALE;
use crate::probability::renormalize;
use crate::probability::renormalize_spec;
use crate::probability::lemma_renormalize_wf;
use crate::probability::StateVector;

verus! {

use vstd::arithmetic::div_mod::lemma_div_is_ordered;
use vstd::arithmetic::div_mod::lemma_div_pos_is_pos;
use vstd::arithmetic::div_mod::lemma_div_multiples_vanish;
use vstd::arithmetic::mul::lemma_mul_inequality;

/// The eight fixed-point uniform draws one tick of one cell consumes:
/// `s0`..`s3` decide, per component, whether the cell synchronizes with its
/// partner; `j0`..`j3` scale the additive noise per component.
#[derive(Clone, Copy, Debug, PartialEq)]
pub struct Draws {
    pub s0: u64,
    pub s1: u64,
    pub s2: u64,
    pub s3: u64,
    pub j0: u64,
    pub j1: u64,
    pub j2: u64,
    pub j3: u64,
}

impl Draws {
    /// Each draw is a fixed-point value below one.
    pub open spec fn wf(self) -> bool {
        self.s0 < SCALE && self.s1 < SCALE && self.s2 < SCALE && self.s3 < SCALE && self.j0
            < SCALE && self.j1 < SCALE && self.j2 < SCALE && self.j3 < SCALE
    }
}

/// One component after the synchronization step: with probability `rf`
/// (draw below threshold) the component is replaced by the average of the
/// cell's and the partner's components, otherwise left untouched.
pub open spec fn synced_component(p: int, q: int, s_draw: int, rf: int) -> int {
    if s_draw < rf {
        (p + q) / 2
    } else {
        p
    }
}

/// Entanglement synchronization: without a partner the vector is unchanged;
/// with one, each component is independently pulled halfway toward the
/// partner's component with probability `rf`.
pub open spec fn sync_spec(p: StateVector, partner: Option<StateVector>, d: Draws, rf: u64)
    -> StateVector {
    match partner {
        Some(q) => StateVector {
            p0: synced_component(p.p0 as int, q.p0 as int, d.s0 as int, rf as int) as u64,
            p1: synced_component(p.p1 as int, q.p1 as int, d.s1 as int, rf as int) as u64,
            p2: synced_component(p.p2 as int, q.p2 as int, d.s2 as int, rf as int) as u64,
            p3: synced_component(p.p3 as int, q.p3 as int, d.s3 as int, rf as int) as u64,
        },
        None => p,
    }
}

/// Component-wise sum of the eight neighbors' probability vectors.
pub open spec fn influence_sum_spec(ns: Seq<Cell>) -> StateVector
    recommends
        ns.len() == 8,
{
    StateVector {
        p0: (ns[0].state_probabilities.p0 + ns[1].state_probabilities.p0
            + ns[2].state_probabilities.p0 + ns[3].state_probabilities.p0
            + ns[4].state_probabilities.p0 + ns[5].state_probabilities.p0
            + ns[6].state_probabilities.p0 + ns[7].state_probabilities.p0) as u64,
        p1: (ns[0].state_probabilities.p1 + ns[1].state_probabilities.p1
            + ns[2].state_probabilities.p1 + ns[3].state_probabilities.p1
            + ns[4].state_probabilities.p1 + ns[5].state_probabilities.p1
            + ns[6].state_probabilities.p1 + ns[7].state_probabilities.p1) as u64,
        p2: (ns[0].state_probabilities.p2 + ns[1].state_probabilities.p2
            + ns[2].state_probabilities.p2 + ns[3].state_probabilities.p2
            + ns[4].state_probabilities.p2 + ns[5].state_probabilities.p2
            + ns[6].state_probabilities.p2 + ns[7].state_probabilities.p2) as u64,
        p3: (ns[0].state_probabilities.p3 + ns[1].state_probabilities.p3
            + ns[2].state_probabilities.p3 + ns[3].state_probabilities.p3
            + ns[4].state_probabilities.p3 + ns[5].state_probabilities.p3
            + ns[6].state_probabilities.p3 + ns[7].state_probabilities.p3) as u64,
    }
}

/// The raw neighbor sum turned into a distribution: if the total is
/// positive, every component is rescaled so the vector totals `SCALE`
/// (rounded down); a zero total leaves the all-zero vector unchanged.
pub open spec fn influence_normalized_spec(f: StateVector) -> StateVector {
    let t = f.total();
    if t > 0 {
        StateVector {
            p0: (f.p0 * SCALE / t) as u64,
            p1: (f.p1 * SCALE / t) as u64,
            p2: (f.p2 * SCALE / t) as u64,
            p3: (f.p3 * SCALE / t) as u64,
        }
    } else {
        f
    }
}

/// The even blend of the cell's own vector with the neighbor consensus.
pub open spec fn blend_spec(p: StateVector, f: StateVector) -> StateVector {
    StateVector {
        p0: ((p.p0 + f.p0) / 2) as u64,
        p1: ((p.p1 + f.p1) / 2) as u64,
        p2: ((p.p2 + f.p2) / 2) as u64,
        p3: ((p.p3 + f.p3) / 2) as u64,
    }
}

/// Additive noise: each component gains an independent non-negative jitter
/// below `rf`, namely the uniform draw rescaled by `rf`. The total may
/// leave `SCALE`; only the final renormalization restores it.
pub open spec fn perturb_spec(p: StateVector, d: Draws, rf: u64) -> StateVector {
    StateVector {
        p0: (p.p0 + d.j0 * rf / (SCALE as int)) as u64,
        p1: (p.p1 + d.j1 * rf / (SCALE as int)) as u64,
        p2: (p.p2 + d.j2 * rf / (SCALE as int)) as u64,
        p3: (p.p3 + d.j3 * rf / (SCALE as int)) as u64,
    }
}

/// The full probability pipeline of one tick for one cell.
pub open spec fn next_probabilities_spec(
    p: StateVector,
    partner: Option<StateVector>,
    ns: Seq<Cell>,
    d: Draws,
    rf: u64,
) -> StateVector {
    renormalize_spec(
        perturb_spec(
            blend_spec(
                sync_spec(p, partner, d, rf),
                influence_normalized_spec(influence_sum_spec(ns)),
            ),
            d,
            rf,
        ),
    )
}

/// The next state of a whole cell: the probability pipeline applied to its
/// vector, with the entanglement link carried forward unchanged.
pub open spec fn next_cell_spec(
    cell: Cell,
    partner: Option<Cell>,
    ns: Seq<Cell>,
    d: Draws,
    rf: u64,
) -> Cell {
    Cell {
        state_probabilities: next_probabilities_spec(
            cell.state_probabilities,
            match partner {
                Some(c) => Some(c.state_probabilities),
                None => None,
            },
            ns,
            d,
            rf,
        ),
        entangled_partner: cell.entangled_partner,
    }
}

/// Some component of `v` is at least `m`.
pub open spec fn has_component_at_least(v: StateVector, m: int) -> bool {
    v.p0 >= m || v.p1 >= m || v.p2 >= m || v.p3 >= m
}

/// Synchronization keeps every component at most `SCALE` and keeps some
/// component at least an eighth of the scale.
pub proof fn lemma_sync_bounds(p: StateVector, partner: Option<StateVector>, d: Draws, rf: u64)
    requires
        p.wf(),
        partner matches Some(q) ==> q.wf(),
    ensures
        sync_spec(p, partner, d, rf).bounded_by(SCALE as int),
        has_component_at_least(sync_spec(p, partner, d, rf), SCALE as int / 8),
{
    p.lemma_wf_has_large_component();
    match partner {
        Some(q) => {
            lemma_div_is_ordered(p.p0 + q.p0, 2 * SCALE, 2);
            lemma_div_is_ordered(p.p1 + q.p1, 2 * SCALE, 2);
            lemma_div_is_ordered(p.p2 + q.p2, 2 * SCALE, 2);
            lemma_div_is_ordered(p.p3 + q.p3, 2 * SCALE, 2);
            if p.p0 >= SCALE / 4 {
                lemma_div_is_ordered(SCALE as int / 4, p.p0 + q.p0, 2);
            } else if p.p1 >= SCALE / 4 {
                lemma_div_is_ordered(SCALE as int / 4, p.p1 + q.p1, 2);
            } else if p.p2 >= SCALE / 4 {
                lemma_div_is_ordered(SCALE as int / 4, p.p2 + q.p2, 2);
            } else {
                lemma_div_is_ordered(SCALE as int / 4, p.p3 + q.p3, 2);
            }
        },
        None => {},
    }
}

/// The normalized neighbor influence is a vector of components at most
/// `SCALE` each, and non-negative.
pub proof fn lemma_influence_bounds(f: StateVector)
    ensures
        influence_normalized_spec(f).bounded_by(SCALE as int),
{
    let t = f.total();
    if t > 0 {
        lemma_div_pos_is_pos(f.p0 * SCALE, t);
        lemma_div_pos_is_pos(f.p1 * SCALE, t);
        lemma_div_pos_is_pos(f.p2 * SCALE, t);
        lemma_div_pos_is_pos(f.p3 * SCALE, t);
        lemma_div_is_ordered(f.p0 * SCALE, t * SCALE, t);
        lemma_div_is_ordered(f.p1 * SCALE, t * SCALE, t);
        lemma_div_is_ordered(f.p2 * SCALE, t * SCALE, t);
        lemma_div_is_ordered(f.p3 * SCALE, t * SCALE, t);
        lemma_div_multiples_vanish(SCALE as int, t);
        assert(t * SCALE == SCALE * t);
    }
}

/// Blending two bounded vectors stays bounded and keeps a large component
/// at least half as large.
pub proof fn lemma_blend_bounds(c: StateVector, f: StateVector, m: int)
    requires
        c.bounded_by(SCALE as int),
        f.bounded_by(SCALE as int),
        has_component_at_least(c, m),
        0 <= m,
    ensures
        blend_spec(c, f).bounded_by(SCALE as int),
        has_component_at_least(blend_spec(c, f), m / 2),
{
    lemma_div_is_ordered(c.p0 + f.p0, 2 * SCALE, 2);
    lemma_div_is_ordered(c.p1 + f.p1, 2 * SCALE, 2);
    lemma_div_is_ordered(c.p2 + f.p2, 2 * SCALE, 2);
    lemma_div_is_ordered(c.p3 + f.p3, 2 * SCALE, 2);
    if c.p0 >= m {
        lemma_div_is_ordered(m, c.p0 + f.p0, 2);
    } else if c.p1 >= m {
        lemma_div_is_ordered(m, c.p1 + f.p1, 2);
    } else if c.p2 >= m {
        lemma_div_is_ordered(m, c.p2 + f.p2, 2);
    } else {
        lemma_div_is_ordered(m, c.p3 + f.p3, 2);
    }
}

/// The additive noise is non-negative and below `rf` per component, so a
/// perturbed bounded vector stays within twice the scale and keeps every
/// lower bound on its components.
pub proof fn lemma_perturb_bounds(b: StateVector, d: Draws, rf: u64)
    requires
        b.bounded_by(SCALE as int),
        d.wf(),
        rf <= SCALE,
    ensures
        perturb_spec(b, d, rf).bounded_by(2 * SCALE),
        perturb_spec(b, d, rf).p0 >= b.p0,
        perturb_spec(b, d, rf).p1 >= b.p1,
        perturb_spec(b, d, rf).p2 >= b.p2,
        perturb_spec(b, d, rf).p3 >= b.p3,
{
    lemma_jitter_bounds(d.j0, rf);
    lemma_jitter_bounds(d.j1, rf);
    lemma_jitter_bounds(d.j2, rf);
    lemma_jitter_bounds(d.j3, rf);
}

/// One rescaled jitter value lies in `[0, rf]`.
proof fn lemma_jitter_bounds(j: u64, rf: u64)
    requires
        j < SCALE,
    ensures
        0 <= j * rf / (SCALE as int) <= rf,
{
    lemma_div_pos_is_pos(j * rf, SCALE as int);
    lemma_mul_inequality(j as int, SCALE as int, rf as int);
    lemma_div_is_ordered(j * rf, SCALE * rf, SCALE as int);
    lemma_div_multiples_vanish(rf as int, SCALE as int);
    assert(SCALE * rf == (SCALE as int) * (rf as int));
}

/// The vector entering the final renormalization has a positive total and
/// components at most twice the scale; hence the pipeline's result is a
/// well-formed probability vector.
pub proof fn lemma_pipeline_bounds(
    p: StateVector,
    partner: Option<StateVector>,
    ns: Seq<Cell>,
    d: Draws,
    rf: u64,
)
    requires
        p.wf(),
        partner matches Some(q) ==> q.wf(),
        d.wf(),
        rf <= SCALE,
    ensures
        ({
            let pre = perturb_spec(
                blend_spec(
                    sync_spec(p, partner, d, rf),
                    influence_normalized_spec(influence_sum_spec(ns)),
                ),
                d,
                rf,
            );
            pre.total() > 0 && pre.bounded_by(2 * SCALE)
        }),
        next_probabilities_spec(p, partner, ns, d, rf).wf(),
        next_probabilities_spec(p, partner, ns, d, rf).bounded_by(SCALE as int),
{
    let c = sync_spec(p, partner, d, rf);
    let f = influence_normalized_spec(influence_sum_spec(ns));
    let b = blend_spec(c, f);
    let pre = perturb_spec(b, d, rf);
    lemma_sync_bounds(p, partner, d, rf);
    lemma_influence_bounds(influence_sum_spec(ns));
    lemma_blend_bounds(c, f, SCALE as int / 8);
    lemma_perturb_bounds(b, d, rf);
    assert(has_component_at_least(b, SCALE as int / 16));
    assert(pre.total() > 0);
    lemma_renormalize_wf(pre);
}

/// Law: with the randomness factor at its maximum every component
/// synchronizes, so each component of an entangled cell's intermediate
/// state — after synchronization, before the neighbor blend and the
/// renormalization — is the average of its own and its partner's pre-tick
/// components at that index.
pub proof fn lemma_full_sync_averages(p: StateVector, q: StateVector, d: Draws)
    requires
        p.wf(),
        q.wf(),
        d.wf(),
    ensures
        sync_spec(p, Some(q), d, SCALE).p0 == (p.p0 + q.p0) / 2,
        sync_spec(p, Some(q), d, SCALE).p1 == (p.p1 + q.p1) / 2,
        sync_spec(p, Some(q), d, SCALE).p2 == (p.p2 + q.p2) / 2,
        sync_spec(p, Some(q), d, SCALE).p3 == (p.p3 + q.p3) / 2,
{
    lemma_div_is_ordered(p.p0 + q.p0, 2 * SCALE, 2);
    lemma_div_is_ordered(p.p1 + q.p1, 2 * SCALE, 2);
    lemma_div_is_ordered(p.p2 + q.p2, 2 * SCALE, 2);
    lemma_div_is_ordered(p.p3 + q.p3, 2 * SCALE, 2);
    lemma_div_pos_is_pos(p.p0 + q.p0, 2);
    lemma_div_pos_is_pos(p.p1 + q.p1, 2);
    lemma_div_pos_is_pos(p.p2 + q.p2, 2);
    lemma_div_pos_is_pos(p.p3 + q.p3, 2);
}

/// Entanglement synchronization, executable form.
pub fn entangle_sync(
    p: StateVector,
    partner: Option<StateVector>,
    d: &Draws,
    rf: u64,
) -> (r: StateVector)
    requires
        p.wf(),
        partner matches Some(q) ==> q.wf(),
    ensures
        r == sync_spec(p, partner, *d, rf),
{
    match partner {
        Some(q) => StateVector {
            p0: if d.s0 < rf {
                (p.p0 + q.p0) / 2
            } else {
                p.p0
            },
            p1: if d.s1 < rf {
                (p.p1 + q.p1) / 2
            } else {
                p.p1
            },
            p2: if d.s2 < rf {
                (p.p2 + q.p2) / 2
            } else {
                p.p2
            },
            p3: if d.s3 < rf {
                (p.p3 + q.p3) / 2
            } else {
                p.p3
            },
        },
        None => p,
    }
}

/// Component-wise sum of the eight neighbors' vectors, executable form.
pub fn accumulate_influence(neighbors: &Vec<Cell>) -> (f: StateVector)
    requires
        neighbors@.len() == 8,
        forall|k: int| 0 <= k < 8 ==> neighbors@[k].wf(),
    ensures
        f == influence_sum_spec(neighbors@),
{
    assert(neighbors@[0].wf() && neighbors@[1].wf() && neighbors@[2].wf() && neighbors@[3].wf()
        && neighbors@[4].wf() && neighbors@[5].wf() && neighbors@[6].wf() && neighbors@[7].wf());
    let f0 = neighbors[0].state_probabilities.p0 + neighbors[1].state_probabilities.p0
        + neighbors[2].state_probabilities.p0 + neighbors[3].state_probabilities.p0
        + neighbors[4].state_probabilities.p0 + neighbors[5].state_probabilities.p0
        + neighbors[6].state_probabilities.p0 + neighbors[7].state_probabilities.p0;
    let f1 = neighbors[0].state_probabilities.p1 + neighbors[1].state_probabilities.p1
        + neighbors[2].state_probabilities.p1 + neighbors[3].state_probabilities.p1
        + neighbors[4].state_probabilities.p1 + neighbors[5].state_probabilities.p1
        + neighbors[6].state_probabilities.p1 + neighbors[7].state_probabilities.p1;
    let f2 = neighbors[0].state_probabilities.p2 + neighbors[1].state_probabilities.p2
        + neighbors[2].state_probabilities.p2 + neighbors[3].state_probabilities.p2
        + neighbors[4].state_probabilities.p2 + neighbors[5].state_probabilities.p2
        + neighbors[6].state_probabilities.p2 + neighbors[7].state_probabilities.p2;
    let f3 = neighbors[0].state_probabilities.p3 + neighbors[1].state_probabilities.p3
        + neighbors[2].state_probabilities.p3 + neighbors[3].state_probabilities.p3
        + neighbors[4].state_probabilities.p3 + neighbors[5].state_probabilities.p3
        + neighbors[6].state_probabilities.p3 + neighbors[7].state_probabilities.p3;
    StateVector { p0: f0, p1: f1, p2: f2, p3: f3 }
}

/// Rescale the raw neighbor sum to a distribution, executable form.
pub fn normalize_influence(f: StateVector) -> (r: StateVector)
    requires
        f.bounded_by(8 * SCALE),
    ensures
        r == influence_normalized_spec(f),
{
    let t = f.p0 + f.p1 + f.p2 + f.p3;
    if t > 0 {
        StateVector {
            p0: f.p0 * SCALE / t,
            p1: f.p1 * SCALE / t,
            p2: f.p2 * SCALE / t,
            p3: f.p3 * SCALE / t,
        }
    } else {
        f
    }
}

/// The even blend with the neighbor consensus, executable form.
pub fn blend(p: StateVector, f: StateVector) -> (r: StateVector)
    requires
        p.bounded_by(SCALE as int),
        f.bounded_by(SCALE as int),
    ensures
        r == blend_spec(p, f),
{
    StateVector {
        p0: (p.p0 + f.p0) / 2,
        p1: (p.p1 + f.p1) / 2,
        p2: (p.p2 + f.p2) / 2,
        p3: (p.p3 + f.p3) / 2,
    }
}

/// Additive bounded noise, executable form.
pub fn perturb(p: StateVector, d: &Draws, rf: u64) -> (r: StateVector)
    requires
        p.bounded_by(SCALE as int),
        d.wf(),
        rf <= SCALE,
    ensures
        r == perturb_spec(p, *d, rf),
{
    proof {
        lemma_jitter_bounds(d.j0, rf);
        lemma_jitter_bounds(d.j1, rf);
        lemma_jitter_bounds(d.j2, rf);
        lemma_jitter_bounds(d.j3, rf);
    }
    StateVector {
        p0: p.p0 + d.j0 * rf / SCALE,
        p1: p.p1 + d.j1 * rf / SCALE,
        p2: p.p2 + d.j2 * rf / SCALE,
        p3: p.p3 + d.j3 * rf / SCALE,
    }
}

/// One full application of the update rule to one cell: synchronize with
/// the partner, blend with the averaged neighbor influence, perturb, and
/// renormalize; the entanglement link is carried forward unchanged.
pub fn next_cell_state(
    current: &Cell,
    partner: Option<Cell>,
    neighbors: &Vec<Cell>,
    draws: &Draws,
    rf: u64,
) -> (next: Cell)
    requires
        current.wf(),
        partner matches Some(c) ==> c.wf(),
        neighbors@.len() == 8,
        forall|k: int| 0 <= k < 8 ==> neighbors@[k].wf(),
        draws.wf(),
        rf <= SCALE,
    ensures
        next == next_cell_spec(*current, partner, neighbors@, *draws, rf),
        next.wf(),
{
    let p = current.state_probabilities;
    let partner_probs = match partner {
        Some(c) => Some(c.state_probabilities),
        None => None,
    };
    proof {
        p.lemma_wf_bounds();
        lemma_pipeline_bounds(p, partner_probs, neighbors@, *draws, rf);
        lemma_sync_bounds(p, partner_probs, *draws, rf);
        lemma_influence_bounds(influence_sum_spec(neighbors@));
    }
    let synced = entangle_sync(p, partner_probs, draws, rf);
    let raw = accumulate_influence(neighbors);
    let consensus = normalize_influence(raw);
    let blended = blend(synced, consensus);
    let perturbed = perturb(blended, draws, rf);
    let probs = renormalize(&perturbed);
    Cell { state_probabilities: probs, entangled_partner: current.entangled_partner }
}

} // verus!
