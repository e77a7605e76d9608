//! Tests of grid construction, initialization policies, and neighbor and
//! partner resolution on the torus.

use quantum_life::cell::Cell;
use quantum_life::config::SCALE;
use quantum_life::grid::Grid;
use quantum_life::probability::StateVector;

fn vector(p0: u64, p1: u64, p2: u64, p3: u64) -> StateVector {
    StateVector { p0, p1, p2, p3 }
}

fn plain_cell(p0: u64, p1: u64, p2: u64, p3: u64) -> Cell {
    Cell::new(vector(p0, p1, p2, p3), None)
}

/// A well-formed grid whose cell at (r, c) has weight signature r*16+c in
/// component 1, so every cell is distinguishable.
fn tagged_grid(width: u32, height: u32) -> Grid {
    let mut cells = Vec::new();
    for r in 0..height as u64 {
        for c in 0..width as u64 {
            let tag = r * 16 + c;
            cells.push(plain_cell(SCALE - tag, tag, 0, 0));
        }
    }
    Grid::from_cells(width, height, cells).unwrap()
}

#[test]
fn test_grid_creation() {
    let grid = Grid::new(100, 100);
    assert_eq!(grid.cells.len(), 10000);
}

#[test]
fn test_amplitudes_normalized() {
    let grid = Grid::new(10, 10);
    for cell in &grid.cells {
        // amplitude = sqrt(probability); the squared amplitudes must sum
        // back to one.
        let v = cell.state_probabilities;
        let amps = [v.p0, v.p1, v.p2, v.p3]
            .map(|p| ((p as f32) / (SCALE as f32)).sqrt());
        let sum_sq: f32 = amps.iter().map(|a| a * a).sum();
        assert!(
            (sum_sq - 1.0).abs() < 0.01,
            "Sum of squared amplitudes should be ~1.0, got {}",
            sum_sq
        );
    }
}

#[test]
fn test_new_cells_are_normalized_exactly() {
    let grid = Grid::new(6, 5);
    assert_eq!(grid.cells.len(), 30);
    for cell in &grid.cells {
        let v = cell.state_probabilities;
        assert_eq!(v.p0 + v.p1 + v.p2 + v.p3, SCALE);
    }
}

#[test]
fn test_new_uniform_cells_are_normalized_exactly() {
    let grid = Grid::new_uniform(7, 3);
    assert_eq!(grid.cells.len(), 21);
    for cell in &grid.cells {
        let v = cell.state_probabilities;
        assert_eq!(v.p0 + v.p1 + v.p2 + v.p3, SCALE);
    }
}

#[test]
fn test_new_partners_are_in_bounds() {
    let grid = Grid::new(3, 2);
    for cell in &grid.cells {
        if let Some((x, y)) = cell.entangled_partner {
            assert!(x < 3 && y < 2);
        }
    }
}

#[test]
fn test_from_cells_refuses_wrong_length() {
    let cells = vec![plain_cell(SCALE, 0, 0, 0); 5];
    assert!(Grid::from_cells(2, 3, cells).is_none());
}

#[test]
fn test_from_cells_refuses_invalid_distribution() {
    let mut cells = vec![plain_cell(SCALE, 0, 0, 0); 6];
    cells[4] = plain_cell(SCALE, 1, 0, 0); // sums above one
    assert!(Grid::from_cells(2, 3, cells).is_none());
}

#[test]
fn test_from_cells_accepts_matching_parts() {
    let cells = vec![plain_cell(250_000, 250_000, 250_000, 250_000); 6];
    let grid = Grid::from_cells(2, 3, cells).unwrap();
    assert_eq!(grid.width, 2);
    assert_eq!(grid.height, 3);
    assert_eq!(grid.cells.len(), 6);
}

#[test]
fn test_neighbors_wrap_around_origin() {
    // a 5-wide, 4-high torus: the neighbor set of (0, 0) includes the
    // opposite corner (3, 4) and never needs a negative index.
    let grid = tagged_grid(5, 4);
    let ns = grid.get_neighbors(0, 0);
    assert_eq!(ns.len(), 8);
    let corner = grid.get_cell(3, 4);
    assert_eq!(ns[0].state_probabilities, corner.state_probabilities);
    // fixed row-major offset order around (0, 0)
    let expected = [(3, 4), (3, 0), (3, 1), (0, 4), (0, 1), (1, 4), (1, 0), (1, 1)];
    for (k, (r, c)) in expected.iter().enumerate() {
        let cell = grid.get_cell(*r, *c);
        assert_eq!(
            ns[k].state_probabilities, cell.state_probabilities,
            "neighbor {} should come from {:?}",
            k,
            (r, c)
        );
    }
}

#[test]
fn test_neighbors_interior_coordinate() {
    let grid = tagged_grid(5, 4);
    let ns = grid.get_neighbors(2, 2);
    let expected = [(1, 1), (1, 2), (1, 3), (2, 1), (2, 3), (3, 1), (3, 2), (3, 3)];
    for (k, (r, c)) in expected.iter().enumerate() {
        let cell = grid.get_cell(*r, *c);
        assert_eq!(ns[k].state_probabilities, cell.state_probabilities);
    }
}

#[test]
fn test_partner_resolution_reduces_modulo_dimensions() {
    let mut cells = Vec::new();
    for i in 0..6u64 {
        cells.push(plain_cell(SCALE - i, i, 0, 0));
    }
    // cell 0 points at raw coordinate (x=7, y=5) on a 3-wide, 2-high grid:
    // reduced to column 1, row 1.
    cells[0] = Cell::new(vector(SCALE, 0, 0, 0), Some((7, 5)));
    let grid = Grid::from_cells(3, 2, cells).unwrap();
    let cell = grid.get_cell(0, 0);
    let partner = grid.partner_of(&cell).unwrap();
    let direct = grid.get_cell(1, 1);
    assert_eq!(partner.state_probabilities, direct.state_probabilities);
    // a cell without a link resolves to no partner
    let lone = grid.get_cell(0, 1);
    assert!(grid.partner_of(&lone).is_none());
}

#[test]
fn test_new_default_dimensions() {
    let grid = Grid::new_default();
    assert_eq!(grid.width, 512);
    assert_eq!(grid.height, 512);
    assert_eq!(grid.cells.len(), 512 * 512);
}
