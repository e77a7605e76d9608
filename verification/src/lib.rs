//! A two-dimensional toroidal grid of probabilistic four-state cells,
//! evolved by a cellular-automaton-style update rule.
//!
//! Every cell carries a four-way probability distribution over the basic
//! states, kept in fixed-point arithmetic so that the probability invariant
//! (components non-negative, summing to one) is exact and machine-checked.
//! A cell may be entangled with one other cell; each tick pulls a cell
//! toward its partner with small probability, blends it with the averaged
//! distribution of its eight toroidal neighbors, perturbs it with bounded
//! noise, and renormalizes.
//!
//! The evaluator computes a whole tick from an immutable snapshot of the
//! previous grid, so its output at one coordinate never depends on any
//! freshly written cell.

pub mod cell;
pub mod codec;
pub mod config;
pub mod diagnostics;
pub mod evaluator;
pub mod grid;
pub mod probability;
pub mod rng;
pub mod rule;
pub mod wire;
