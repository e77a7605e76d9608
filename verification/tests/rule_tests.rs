//! Tests of the per-cell update-rule steps and the fixed-point vectors.

use quantum_life::config::SCALE;
use quantum_life::diagnostics::dominant_index;
use quantum_life::probability::renormalize;
use quantum_life::probability::StateVector;
use quantum_life::rule::blend;
use quantum_life::rule::entangle_sync;
use quantum_life::rule::Draws;

fn vector(p0: u64, p1: u64, p2: u64, p3: u64) -> StateVector {
    StateVector { p0, p1, p2, p3 }
}

fn forced_draws(s: u64, j: u64) -> Draws {
    Draws { s0: s, s1: s, s2: s, s3: s, j0: j, j1: j, j2: j, j3: j }
}

#[test]
fn test_renormalize_even_weights() {
    let w = renormalize(&vector(1, 1, 1, 1));
    assert_eq!(w, vector(250_000, 250_000, 250_000, 250_000));
}

#[test]
fn test_renormalize_uneven_weights_folds_slack_into_first() {
    // 3 : 1 : 0 : 0 rescales exactly
    let w = renormalize(&vector(3, 1, 0, 0));
    assert_eq!(w, vector(750_000, 250_000, 0, 0));
    // 1 : 1 : 1 of three equal parts leaves floor slack in component 0
    let w2 = renormalize(&vector(0, 1, 1, 1));
    assert_eq!(w2.p1, 333_333);
    assert_eq!(w2.p2, 333_333);
    assert_eq!(w2.p3, 333_333);
    assert_eq!(w2.p0, 1_000_000 - 3 * 333_333);
    assert_eq!(w2.p0 + w2.p1 + w2.p2 + w2.p3, SCALE);
}

#[test]
fn test_renormalize_identity_on_normalized_vector() {
    let w = renormalize(&vector(500_000, 300_000, 150_000, 50_000));
    assert_eq!(w, vector(500_000, 300_000, 150_000, 50_000));
}

#[test]
fn test_entangled_sync_averages_all_components() {
    // randomness factor forced to one: every component synchronizes, so
    // each becomes the average of the two pre-tick components — the
    // intermediate contract of the rule, before blend and renormalization.
    let a = vector(SCALE, 0, 0, 0);
    let b = vector(0, SCALE, 0, 0);
    let d = forced_draws(0, 0);
    let synced = entangle_sync(a, Some(b), &d, SCALE);
    assert_eq!(synced, vector(SCALE / 2, SCALE / 2, 0, 0));

    let a2 = vector(600_000, 200_000, 150_000, 50_000);
    let b2 = vector(200_000, 400_000, 250_000, 150_000);
    let synced2 = entangle_sync(a2, Some(b2), &d, SCALE);
    assert_eq!(synced2, vector(400_000, 300_000, 200_000, 100_000));
}

#[test]
fn test_sync_without_partner_is_identity() {
    let a = vector(600_000, 200_000, 150_000, 50_000);
    let d = forced_draws(0, 0);
    assert_eq!(entangle_sync(a, None, &d, SCALE), a);
}

#[test]
fn test_sync_with_zero_randomness_is_identity() {
    let a = vector(600_000, 200_000, 150_000, 50_000);
    let b = vector(200_000, 400_000, 250_000, 150_000);
    let d = forced_draws(0, 0);
    assert_eq!(entangle_sync(a, Some(b), &d, 0), a);
}

#[test]
fn test_self_partner_sync_is_identity() {
    // a partner pointing at the cell itself pulls toward itself
    let a = vector(600_000, 200_000, 150_000, 50_000);
    let d = forced_draws(0, 0);
    assert_eq!(entangle_sync(a, Some(a), &d, SCALE), a);
}

#[test]
fn test_blend_is_even() {
    let p = vector(600_000, 200_000, 150_000, 50_000);
    let f = vector(200_000, 400_000, 250_000, 150_000);
    assert_eq!(blend(p, f), vector(400_000, 300_000, 200_000, 100_000));
}

#[test]
fn test_dominant_index_basic() {
    assert_eq!(dominant_index(&vector(700_000, 100_000, 100_000, 100_000)), 0);
    assert_eq!(dominant_index(&vector(100_000, 700_000, 100_000, 100_000)), 1);
    assert_eq!(dominant_index(&vector(100_000, 100_000, 700_000, 100_000)), 2);
    assert_eq!(dominant_index(&vector(100_000, 100_000, 100_000, 700_000)), 3);
}

#[test]
fn test_dominant_index_ties_go_to_first() {
    assert_eq!(dominant_index(&vector(250_000, 250_000, 250_000, 250_000)), 0);
    assert_eq!(dominant_index(&vector(0, 500_000, 500_000, 0)), 1);
    assert_eq!(dominant_index(&vector(0, 0, 500_000, 500_000)), 2);
}

#[test]
fn test_dominant_index_total_on_degenerate_vector() {
    // even an all-zero vector has a well-defined arg-max
    assert_eq!(dominant_index(&vector(0, 0, 0, 0)), 0);
}
