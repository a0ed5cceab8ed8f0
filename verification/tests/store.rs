//! Tests of the grid state store: creation, the seed glyph, painting,
//! clearing, and the pixel encoding.

use toroidal_life::Grid;

fn live_count(g: &Grid) -> usize {
    let mut n = 0;
    for y in 0..g.height() {
        for x in 0..g.width() {
            if g.get(x, y) {
                n += 1;
            }
        }
    }
    n
}

#[test]
fn create_is_all_dead() {
    let g = Grid::create(7, 9);
    assert_eq!(g.width(), 7);
    assert_eq!(g.height(), 9);
    assert_eq!(live_count(&g), 0);
}

#[test]
fn paint_interior_is_a_plus_of_five() {
    let mut g = Grid::create(5, 5);
    g.paint(2, 2);
    assert_eq!(live_count(&g), 5);
    assert!(g.get(2, 2));
    assert!(g.get(1, 2));
    assert!(g.get(3, 2));
    assert!(g.get(2, 1));
    assert!(g.get(2, 3));
    assert!(!g.get(1, 1));
    assert!(!g.get(3, 3));
}

#[test]
fn paint_at_corner_does_not_wrap() {
    let mut g = Grid::create(5, 5);
    g.paint(0, 0);
    assert_eq!(live_count(&g), 3);
    assert!(g.get(0, 0));
    assert!(g.get(1, 0));
    assert!(g.get(0, 1));
    assert!(!g.get(4, 0));
    assert!(!g.get(0, 4));
}

#[test]
fn paint_out_of_bounds_is_a_no_op() {
    let mut g = Grid::create(5, 5);
    g.paint(5, 2);
    g.paint(2, 5);
    g.paint(100, 100);
    assert_eq!(live_count(&g), 0);
}

#[test]
fn clear_kills_everything_and_is_idempotent() {
    let mut g = Grid::with_seed(200, 100);
    assert!(live_count(&g) > 0);
    g.clear();
    assert_eq!(live_count(&g), 0);
    let once = g.to_pixels();
    g.clear();
    let twice = g.to_pixels();
    assert_eq!(live_count(&g), 0);
    assert_eq!(once, twice);
}

#[test]
fn seed_glyph_sits_on_its_row() {
    let g = Grid::with_seed(200, 100);
    // A sample of columns inside and outside the glyph, all on row 80.
    assert!(g.get(80, 80));
    assert!(g.get(87, 80));
    assert!(!g.get(88, 80));
    assert!(g.get(89, 80));
    assert!(g.get(93, 80));
    assert!(!g.get(94, 80));
    assert!(g.get(97, 80));
    assert!(!g.get(100, 80));
    assert!(g.get(106, 80));
    assert!(g.get(112, 80));
    assert!(!g.get(113, 80));
    assert!(g.get(114, 80));
    assert!(g.get(118, 80));
    assert!(!g.get(119, 80));
    assert!(!g.get(79, 80));
    // Nothing on the neighboring rows.
    assert!(!g.get(80, 79));
    assert!(!g.get(80, 81));
    assert_eq!(live_count(&g), 28);
}

#[test]
fn seed_glyph_is_clipped_on_a_small_grid() {
    let g = Grid::with_seed(5, 5);
    assert_eq!(live_count(&g), 0);
}

#[test]
fn pixels_encode_state_in_the_green_channel() {
    let mut g = Grid::create(2, 2);
    g.paint(0, 0);
    // Live cells: (0,0), (1,0), (0,1); dead: (1,1).
    let px = g.to_pixels();
    assert_eq!(
        px,
        vec![0, 255, 0, 255, 0, 255, 0, 255, 0, 255, 0, 255, 0, 0, 0, 255]
    );
}

#[test]
fn replace_installs_the_new_buffer() {
    let mut g = Grid::create(3, 3);
    let mut fresh = Grid::create(3, 3);
    fresh.paint(1, 1);
    g.replace(fresh);
    assert_eq!(live_count(&g), 5);
}
