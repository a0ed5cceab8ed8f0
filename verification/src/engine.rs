//! The transition engine: computes generation `N + 1` from generation `N`
//! under the classic B3/S23 rule with toroidal wraparound, as a pure map
//! from the old buffer to a fresh one. The per-cell work is independent,
//! so the whole grid is recomputed in parallel.

use crate::grid::{lemma_flat_index_in_range, Grid};
use rayon::iter::{IndexedParallelIterator, IntoParallelIterator, ParallelIterator};
use vstd::arithmetic::div_mod::lemma_fundamental_div_mod_converse;
use vstd::prelude::*;

verus! {

/// One step toward the low edge of an axis of length `n`, wrapping from
/// `0` to `n - 1`.
pub open spec fn wrap_dec(i: int, n: int) -> int {
    if i == 0 {
        n - 1
    } else {
        i - 1
    }
}

/// One step toward the high edge of an axis of length `n`, wrapping from
/// `n - 1` to `0`.
pub open spec fn wrap_inc(i: int, n: int) -> int {
    if i == n - 1 {
        0
    } else {
        i + 1
    }
}

/// The wrap helpers are the euclidean remainders `(i - 1) % n` and
/// `(i + 1) % n`: stepping off either edge lands on the opposite one.
pub proof fn lemma_wrap_is_mod(i: int, n: int) by (nonlinear_arith)
    requires
        0 <= i < n,
    ensures
        wrap_dec(i, n) == (i - 1) % n,
        wrap_inc(i, n) == (i + 1) % n,
{
}

/// A live cell counts as one neighbor.
pub open spec fn count_one(alive: bool) -> int {
    if alive {
        1
    } else {
        0
    }
}

/// The Game-of-Life rule: a dead cell is born with exactly 3 live
/// neighbors; a live cell survives with 2 or 3; every other count
/// leaves the cell dead.
pub open spec fn rule(alive: bool, live_neighbors: int) -> bool {
    if alive {
        live_neighbors == 2 || live_neighbors == 3
    } else {
        live_neighbors == 3
    }
}

/// Applies the Game-of-Life rule to one cell's state and neighbor count.
pub fn apply_rule(alive: bool, live_neighbors: u8) -> (next: bool)
    ensures
        next == rule(alive, live_neighbors as int),
{
    if alive {
        live_neighbors == 2 || live_neighbors == 3
    } else {
        live_neighbors == 3
    }
}

impl Grid {
    /// How many of the 8 toroidal neighbors of `(x, y)` are alive.
    pub open spec fn live_neighbors(self, x: int, y: int) -> int {
        let w = self.spec_width();
        let h = self.spec_height();
        let xl = wrap_dec(x, w);
        let xr = wrap_inc(x, w);
        let yu = wrap_dec(y, h);
        let yd = wrap_inc(y, h);
        count_one(self.cell(xl, yu)) + count_one(self.cell(x, yu)) + count_one(self.cell(xr, yu))
            + count_one(self.cell(xl, y)) + count_one(self.cell(xr, y)) + count_one(
            self.cell(xl, yd),
        ) + count_one(self.cell(x, yd)) + count_one(self.cell(xr, yd))
    }

    /// The state the cell at `(x, y)` takes in the next generation.
    pub open spec fn next_cell_spec(self, x: int, y: int) -> bool {
        rule(self.cell(x, y), self.live_neighbors(x, y))
    }

    /// The next state of the cell at flat index `i`.
    pub open spec fn next_flat_spec(self, i: int) -> bool {
        self.next_cell_spec(i % self.spec_width(), i / self.spec_width())
    }

    /// `self` is the generation that follows `prev`: same dimensions, and
    /// every cell is `prev`'s cell passed through the rule.
    pub open spec fn is_step_of(self, prev: Grid) -> bool {
        &&& self.wf()
        &&& self.spec_width() == prev.spec_width()
        &&& self.spec_height() == prev.spec_height()
        &&& forall|x: int, y: int|
            prev.in_bounds(x, y) ==> (#[trigger] self.cell(x, y)) == prev.next_cell_spec(x, y)
    }

    /// Counts the live cells among the 8 toroidal neighbors of `(x, y)`.
    #[verifier::rlimit(60)]
    pub fn live_neighbor_count(&self, x: usize, y: usize) -> (n: u8)
        requires
            self.wf(),
            self.in_bounds(x as int, y as int),
        ensures
            n as int == self.live_neighbors(x as int, y as int),
            n <= 8,
    {
        let w = self.width;
        let h = self.height;
        let xl: usize = if x == 0 { w - 1 } else { x - 1 };
        let xr: usize = if x == w - 1 { 0 } else { x + 1 };
        let yu: usize = if y == 0 { h - 1 } else { y - 1 };
        let yd: usize = if y == h - 1 { 0 } else { y + 1 };
        let mut n: u8 = 0;
        if self.get(xl, yu) { n = n + 1; }
        if self.get(x, yu) { n = n + 1; }
        if self.get(xr, yu) { n = n + 1; }
        if self.get(xl, y) { n = n + 1; }
        if self.get(xr, y) { n = n + 1; }
        if self.get(xl, yd) { n = n + 1; }
        if self.get(x, yd) { n = n + 1; }
        if self.get(xr, yd) { n = n + 1; }
        n
    }

    /// Evaluates the rule for the cell at `(x, y)` against the current
    /// generation.
    pub fn next_cell(&self, x: usize, y: usize) -> (next: bool)
        requires
            self.wf(),
            self.in_bounds(x as int, y as int),
        ensures
            next == self.next_cell_spec(x as int, y as int),
    {
        apply_rule(self.get(x, y), self.live_neighbor_count(x, y))
    }

    /// Evaluates the rule for the cell at flat index `i`.
    pub fn next_cell_flat(&self, i: usize) -> (next: bool)
        requires
            self.wf(),
            i < self.cells@.len(),
        ensures
            next == self.next_flat_spec(i as int),
    {
        proof {
            lemma_flat_coords_in_range(i as int, self.spec_width(), self.spec_height());
        }
        let x: usize = i % self.width;
        let y: usize = i / self.width;
        self.next_cell(x, y)
    }

    /// Computes the next generation into a fresh buffer, one cell at a
    /// time, all cells in parallel, reading only the current buffer.
    pub fn step(&self) -> (next: Grid)
        requires
            self.wf(),
        ensures
            next.is_step_of(*self),
    {
        let cells = par_next_cells(self);
        let g = Grid { cells, width: self.width, height: self.height };
        proof {
            assert forall|x: int, y: int| self.in_bounds(x, y) implies (#[trigger] g.cell(x, y))
                == self.next_cell_spec(x, y) by {
                let w = self.spec_width();
                let i = y * w + x;
                lemma_flat_index_in_range(x, y, w, self.spec_height());
                lemma_fundamental_div_mod_converse(i, w, y, x);
                assert(g.cells@[i] == self.next_flat_spec(i));
                assert(self.next_flat_spec(i) == self.next_cell_spec(x, y));
            }
        }
        g
    }
}

/// Well-formed flat indices split into in-bounds coordinates.
pub proof fn lemma_flat_coords_in_range(i: int, w: int, h: int) by (nonlinear_arith)
    requires
        0 <= i < w * h,
        0 <= w,
        0 <= h,
    ensures
        0 <= i % w < w,
        0 <= i / w < h,
{
}

/// Relies on rayon's `into_par_iter` over an index range, `map`, and
/// `collect_into_vec`: an indexed parallel map collects one output per
/// index, in index order.
#[verifier::external_body]
fn par_next_cells(g: &Grid) -> (r: Vec<bool>)
    requires
        g.wf(),
    ensures
        r@.len() == g.cells@.len(),
        forall|i: int| 0 <= i < r@.len() ==> r@[i] == g.next_flat_spec(i),
{
    let mut r: Vec<bool> = Vec::new();
    (0..g.cells.len()).into_par_iter().map(|i| g.next_cell_flat(i)).collect_into_vec(&mut r);
    r
}

} // verus!
