//! Tests of the tick evaluator: fixed points, snapshot isolation,
//! determinism, the probability invariant, and the diagnostics.

use quantum_life::cell::Cell;
use quantum_life::config::RANDOMNESS_FACTOR;
use quantum_life::config::SCALE;
use quantum_life::diagnostics::dominant_index;
use quantum_life::grid::Grid;
use quantum_life::probability::StateVector;
use quantum_life::rng::draws_for_cell;
use quantum_life::rule::next_cell_state;

fn vector(p0: u64, p1: u64, p2: u64, p3: u64) -> StateVector {
    StateVector { p0, p1, p2, p3 }
}

fn uniform_cell() -> Cell {
    Cell::new(vector(250_000, 250_000, 250_000, 250_000), None)
}

#[test]
fn test_uniform_grid_is_fixed_point_under_zero_noise() {
    // a 3x3 grid of uniform cells, no entanglement, randomness factor
    // forced to zero: one tick leaves every distribution unchanged.
    let cells = vec![uniform_cell(); 9];
    let grid = Grid::from_cells(3, 3, cells).unwrap();
    let next = grid.step(0, 12345);
    assert_eq!(next.cells.len(), 9);
    for cell in &next.cells {
        assert_eq!(
            cell.state_probabilities,
            vector(250_000, 250_000, 250_000, 250_000)
        );
    }
}

#[test]
fn test_snapshot_isolation_on_forced_cell() {
    // a 4x4 grid with one cell forced to a distinctive state: every other
    // cell's next state must equal the state recomputed from the pre-tick
    // snapshot alone, so the forced cell's *next* value never leaks into
    // the same tick.
    let mut cells = vec![uniform_cell(); 16];
    cells[5] = Cell::new(vector(970_000, 10_000, 10_000, 10_000), Some((2, 3)));
    let grid = Grid::from_cells(4, 4, cells).unwrap();
    let seed = 99;
    let rf = RANDOMNESS_FACTOR;
    let next = grid.step(rf, seed);
    for r in 0..4usize {
        for c in 0..4usize {
            let current = grid.get_cell(r, c);
            let partner = grid.partner_of(&current);
            let neighbors = grid.get_neighbors(r, c);
            let draws = draws_for_cell(seed, c as u32, r as u32);
            let expected = next_cell_state(&current, partner, &neighbors, &draws, rf);
            let got = next.get_cell(r, c);
            assert_eq!(got.state_probabilities, expected.state_probabilities);
            assert_eq!(got.entangled_partner, expected.entangled_partner);
        }
    }
}

#[test]
fn test_two_identically_seeded_runs_agree_at_every_tick() {
    let seed_grid = Grid::new(5, 4);
    let cells = seed_grid.cells.clone();
    let mut g1 = Grid::from_cells(5, 4, cells.clone()).unwrap();
    let mut g2 = Grid::from_cells(5, 4, cells).unwrap();
    for tick in 0..4u32 {
        g1.update(RANDOMNESS_FACTOR, 1000 + tick);
        g2.update(RANDOMNESS_FACTOR, 1000 + tick);
        for (a, b) in g1.cells.iter().zip(g2.cells.iter()) {
            assert_eq!(a.state_probabilities, b.state_probabilities);
            assert_eq!(a.entangled_partner, b.entangled_partner);
        }
    }
}

#[test]
fn test_run_ticks_matches_repeated_updates() {
    let seed_grid = Grid::new_uniform(4, 3);
    let cells = seed_grid.cells.clone();
    let mut by_run = Grid::from_cells(4, 3, cells.clone()).unwrap();
    let mut by_hand = Grid::from_cells(4, 3, cells).unwrap();
    by_run.run_ticks(3, RANDOMNESS_FACTOR, 7);
    for t in 0..3u32 {
        let s = quantum_life::evaluator::tick_seed(7, t);
        by_hand.update(RANDOMNESS_FACTOR, s);
    }
    for (a, b) in by_run.cells.iter().zip(by_hand.cells.iter()) {
        assert_eq!(a.state_probabilities, b.state_probabilities);
    }
}

#[test]
fn test_invariant_holds_after_many_ticks() {
    let mut grid = Grid::new(8, 6);
    grid.run_ticks(5, RANDOMNESS_FACTOR, 424242);
    assert_eq!(grid.cells.len(), 48);
    for cell in &grid.cells {
        let v = cell.state_probabilities;
        // exact normalization, every component non-negative by type
        assert_eq!(v.p0 + v.p1 + v.p2 + v.p3, SCALE);
        // the dominant index is always well defined
        assert!(dominant_index(&v) < 4);
    }
}

#[test]
fn test_step_carries_partner_links_forward() {
    let mut cells = vec![uniform_cell(); 6];
    cells[2] = Cell::new(vector(250_000, 250_000, 250_000, 250_000), Some((1, 1)));
    let grid = Grid::from_cells(3, 2, cells).unwrap();
    let next = grid.step(RANDOMNESS_FACTOR, 5);
    assert_eq!(next.cells[2].entangled_partner, Some((1, 1)));
    assert_eq!(next.cells[0].entangled_partner, None);
}

#[test]
fn test_noise_keeps_distributions_normalized() {
    // randomness factor forced to its maximum: the perturbation is as
    // large as it can be, and renormalization still restores the invariant
    let cells = vec![uniform_cell(); 9];
    let mut grid = Grid::from_cells(3, 3, cells).unwrap();
    grid.run_ticks(3, SCALE, 2024);
    for cell in &grid.cells {
        let v = cell.state_probabilities;
        assert_eq!(v.p0 + v.p1 + v.p2 + v.p3, SCALE);
    }
}

#[test]
fn test_state_distribution_all_dominant_zero() {
    let cells = vec![Cell::new(vector(700_000, 100_000, 100_000, 100_000), None); 12];
    let grid = Grid::from_cells(4, 3, cells).unwrap();
    let dist = grid.calculate_state_distribution();
    assert_eq!(dist.one, 12);
    assert_eq!(dist.minus_one, 0);
    assert_eq!(dist.complex, 0);
}

#[test]
fn test_state_distribution_mixed_buckets() {
    let mut cells = Vec::new();
    cells.push(Cell::new(vector(700_000, 100_000, 100_000, 100_000), None)); // bucket one
    cells.push(Cell::new(vector(100_000, 700_000, 100_000, 100_000), None)); // bucket minus-one
    cells.push(Cell::new(vector(100_000, 100_000, 700_000, 100_000), None)); // complex
    cells.push(Cell::new(vector(100_000, 100_000, 100_000, 700_000), None)); // complex
    cells.push(Cell::new(vector(250_000, 250_000, 250_000, 250_000), None)); // tie: one
    cells.push(Cell::new(vector(100_000, 450_000, 450_000, 0), None)); // tie: minus-one
    let grid = Grid::from_cells(3, 2, cells).unwrap();
    let dist = grid.calculate_state_distribution();
    assert_eq!(dist.one, 2);
    assert_eq!(dist.minus_one, 2);
    assert_eq!(dist.complex, 2);
    assert_eq!(dist.one + dist.minus_one + dist.complex, 6);
}

#[test]
fn test_count_neighbors_buckets() {
    let mut cells = vec![Cell::new(vector(700_000, 100_000, 100_000, 100_000), None); 9];
    // around the center (1, 1): make (0, 0) dominant-2 and (2, 2) dominant-3
    cells[0] = Cell::new(vector(100_000, 100_000, 700_000, 100_000), None);
    cells[8] = Cell::new(vector(100_000, 100_000, 100_000, 700_000), None);
    let grid = Grid::from_cells(3, 3, cells).unwrap();
    let count = grid.count_neighbors(1, 1);
    assert_eq!(count.one_or_i, 6);
    assert_eq!(count.i, 1);
    assert_eq!(count.minus_i, 1);
}

#[test]
fn test_sum_neighbors_complex_values() {
    let mut cells = vec![Cell::new(vector(SCALE, 0, 0, 0), None); 9];
    // two neighbors of the center pull the real axis down, one adds
    // imaginary weight
    cells[0] = Cell::new(vector(0, SCALE, 0, 0), None);
    cells[1] = Cell::new(vector(0, SCALE, 0, 0), None);
    cells[2] = Cell::new(vector(0, 0, SCALE, 0), None);
    let grid = Grid::from_cells(3, 3, cells).unwrap();
    let (real, imag) = grid.sum_neighbors_complex(1, 1);
    // six neighbors at +SCALE, two at -SCALE on the real axis
    assert_eq!(real, 5 * SCALE as i64 - 2 * SCALE as i64);
    assert_eq!(imag, SCALE as i64);
}
