//! The mode and generation controller: a small state machine over the
//! grid store and the transition engine. Each tick it either accepts
//! edit input or advances the simulation by one generation.

use crate::grid::{is_painted, Grid, SEED_ROW};
use vstd::prelude::*;

verus! {

/// `Editing` accepts paint input and keeps the simulation frozen;
/// `Running` advances one generation per tick and ignores paint input.
#[derive(Clone, Copy, Debug, PartialEq, Eq, Structural)]
pub enum Mode {
    Editing,
    Running,
}

/// The top-level simulation state: the current grid, the number of
/// transition steps taken since the last reset, and the mode.
pub struct Game {
    pub grid: Grid,
    pub generation: u64,
    pub mode: Mode,
}

impl Game {
    pub open spec fn wf(self) -> bool {
        self.grid.wf()
    }

    /// Starts a run: a seeded grid, generation 0, `Editing` mode.
    pub fn new(width: usize, height: usize) -> (game: Game)
        requires
            width * height <= usize::MAX,
        ensures
            game.wf(),
            game.grid.spec_width() == width,
            game.grid.spec_height() == height,
            game.generation == 0,
            game.mode == Mode::Editing,
            forall|x: int, y: int|
                game.grid.in_bounds(x, y) ==> (#[trigger] game.grid.cell(x, y)) == (y
                    == SEED_ROW as int && crate::grid::glyph_col(x)),
    {
        Game { grid: Grid::with_seed(width, height), generation: 0, mode: Mode::Editing }
    }

    pub fn generation(&self) -> (n: u64)
        ensures
            n == self.generation,
    {
        self.generation
    }

    pub fn mode(&self) -> (m: Mode)
        ensures
            m == self.mode,
    {
        self.mode
    }

    /// One tick of the controller.
    ///
    /// In `Editing` mode a `start` trigger switches to `Running`;
    /// otherwise a paint trigger applies the brush; the generation never
    /// advances. In `Running` mode the engine computes the next
    /// generation, the store installs it and the counter moves up by
    /// one; a `reset` trigger then clears the grid, zeroes the counter
    /// and returns to `Editing`. Paint input is ignored while running.
    ///
    /// Triggers are level-sampled: the caller passes the state of its
    /// inputs each tick, so a reset trigger held across several ticks
    /// resets on each of them. A caller that wants edge-triggered
    /// behavior debounces before calling.
    pub fn tick(&mut self, start: bool, reset: bool, paint_at: Option<(usize, usize)>)
        requires
            old(self).wf(),
            old(self).generation < u64::MAX,
        ensures
            final(self).wf(),
            final(self).grid.spec_width() == old(self).grid.spec_width(),
            final(self).grid.spec_height() == old(self).grid.spec_height(),
            old(self).mode == Mode::Editing && start ==> {
                &&& final(self).mode == Mode::Running
                &&& final(self).generation == old(self).generation
                &&& final(self).grid == old(self).grid
            },
            old(self).mode == Mode::Editing && !start && paint_at is Some ==> {
                &&& final(self).mode == Mode::Editing
                &&& final(self).generation == old(self).generation
                &&& is_painted(
                    final(self).grid,
                    old(self).grid,
                    paint_at->Some_0.0 as int,
                    paint_at->Some_0.1 as int,
                )
            },
            old(self).mode == Mode::Editing && !start && paint_at is None ==> *final(self)
                == *old(self),
            old(self).mode == Mode::Running && !reset ==> {
                &&& final(self).mode == Mode::Running
                &&& final(self).generation == old(self).generation + 1
                &&& final(self).grid.is_step_of(old(self).grid)
            },
            old(self).mode == Mode::Running && reset ==> {
                &&& final(self).mode == Mode::Editing
                &&& final(self).generation == 0
                &&& final(self).grid.all_dead()
            },
    {
        match self.mode {
            Mode::Editing => {
                if start {
                    self.mode = Mode::Running;
                } else if let Some((x, y)) = paint_at {
                    self.grid.paint(x, y);
                }
            },
            Mode::Running => {
                let next = self.grid.step();
                self.grid.replace(next);
                self.generation = self.generation + 1;
                if reset {
                    self.grid.clear();
                    self.generation = 0;
                    self.mode = Mode::Editing;
                }
            },
        }
    }
}

} // verus!
