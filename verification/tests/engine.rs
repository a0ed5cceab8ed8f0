//! Tests of the transition engine: conservation, wraparound, a still
//! life, and the blinker oscillator.

use toroidal_life::Grid;

fn grid_from(width: usize, height: usize, live: &[(usize, usize)]) -> Grid {
    let mut cells = vec![false; width * height];
    for &(x, y) in live {
        cells[y * width + x] = true;
    }
    Grid { cells, width, height }
}

fn live_cells(g: &Grid) -> Vec<(usize, usize)> {
    let mut out = Vec::new();
    for y in 0..g.height() {
        for x in 0..g.width() {
            if g.get(x, y) {
                out.push((x, y));
            }
        }
    }
    out
}

#[test]
fn empty_grid_stays_empty() {
    let mut g = Grid::create(8, 8);
    for _ in 0..5 {
        g = g.step();
        assert!(live_cells(&g).is_empty());
    }
}

#[test]
fn lone_cell_dies() {
    let g = grid_from(6, 6, &[(3, 3)]);
    let next = g.step();
    assert!(live_cells(&next).is_empty());
}

#[test]
fn corner_cell_wraps_to_opposite_corners() {
    let g = grid_from(4, 4, &[(0, 0)]);
    assert_eq!(g.live_neighbor_count(3, 3), 1);
    assert_eq!(g.live_neighbor_count(3, 0), 1);
    assert_eq!(g.live_neighbor_count(0, 3), 1);
    assert_eq!(g.live_neighbor_count(2, 2), 0);
}

#[test]
fn block_is_a_still_life() {
    let start = vec![(2, 2), (3, 2), (2, 3), (3, 3)];
    let mut g = grid_from(6, 6, &start);
    for _ in 0..4 {
        g = g.step();
        assert_eq!(live_cells(&g), start);
    }
}

#[test]
fn blinker_oscillates_with_period_two() {
    let g0 = grid_from(5, 5, &[(1, 0), (1, 1), (1, 2)]);
    let g1 = g0.step();
    assert_eq!(live_cells(&g1), vec![(0, 1), (1, 1), (2, 1)]);
    let g2 = g1.step();
    assert_eq!(g2.cells, g0.cells);
}

#[test]
fn row_of_three_flips_across_the_seam() {
    // A horizontal triple that spans the left/right seam turns into a
    // vertical triple through the seam column.
    let g = grid_from(5, 5, &[(4, 0), (0, 0), (1, 0)]);
    let next = g.step();
    assert_eq!(live_cells(&next), vec![(0, 0), (0, 1), (0, 4)]);
}

#[test]
fn dead_cell_with_three_diagonal_neighbors_is_born() {
    let g = grid_from(6, 6, &[(1, 1), (3, 1), (1, 3)]);
    let next = g.step();
    assert!(next.get(2, 2));
}
