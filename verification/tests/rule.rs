//! Exhaustive checks of the transition rule over every neighbor count.

use toroidal_life::apply_rule;

#[test]
fn dead_cell_born_only_with_three_neighbors() {
    for n in 0u8..=8 {
        let expected = n == 3;
        assert_eq!(apply_rule(false, n), expected, "dead cell, {} neighbors", n);
    }
}

#[test]
fn live_cell_survives_only_with_two_or_three_neighbors() {
    for n in 0u8..=8 {
        let expected = n == 2 || n == 3;
        assert_eq!(apply_rule(true, n), expected, "live cell, {} neighbors", n);
    }
}
