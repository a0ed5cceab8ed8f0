//! Tests of the mode and generation controller.

use toroidal_life::{Game, Mode};

fn live_count(game: &Game) -> usize {
    let mut n = 0;
    for y in 0..game.grid.height() {
        for x in 0..game.grid.width() {
            if game.grid.get(x, y) {
                n += 1;
            }
        }
    }
    n
}

#[test]
fn starts_editing_at_generation_zero() {
    let game = Game::new(10, 10);
    assert_eq!(game.generation(), 0);
    assert_eq!(game.mode(), Mode::Editing);
    // Too small for the seed glyph: all dead.
    assert_eq!(live_count(&game), 0);
}

#[test]
fn editing_ticks_do_not_advance_the_generation() {
    let mut game = Game::new(10, 10);
    game.tick(false, false, None);
    game.tick(false, false, Some((4, 4)));
    assert_eq!(game.generation(), 0);
    assert_eq!(game.mode(), Mode::Editing);
    assert_eq!(live_count(&game), 5);
}

#[test]
fn running_ticks_advance_by_exactly_one() {
    let mut game = Game::new(10, 10);
    game.tick(true, false, None);
    assert_eq!(game.mode(), Mode::Running);
    assert_eq!(game.generation(), 0);
    game.tick(false, false, None);
    assert_eq!(game.generation(), 1);
    game.tick(false, false, None);
    assert_eq!(game.generation(), 2);
}

#[test]
fn paint_is_ignored_while_running() {
    let mut game = Game::new(10, 10);
    game.tick(true, false, None);
    game.tick(false, false, Some((4, 4)));
    assert_eq!(live_count(&game), 0);
    assert_eq!(game.generation(), 1);
}

#[test]
fn reset_clears_and_returns_to_editing() {
    let mut game = Game::new(10, 10);
    game.tick(false, false, Some((4, 4)));
    game.tick(true, false, None);
    game.tick(false, false, None);
    assert_eq!(game.generation(), 1);
    game.tick(false, true, None);
    assert_eq!(game.generation(), 0);
    assert_eq!(game.mode(), Mode::Editing);
    assert_eq!(live_count(&game), 0);
}

#[test]
fn start_takes_precedence_over_paint() {
    let mut game = Game::new(10, 10);
    game.tick(true, false, Some((4, 4)));
    assert_eq!(game.mode(), Mode::Running);
    assert_eq!(live_count(&game), 0);
}
