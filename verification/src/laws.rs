//! Laws of the simulation, stated and proved over the grid model: how
//! wraparound, the transition rule, the paint brush and `clear` behave
//! on whole classes of grids.

use crate::engine::lemma_flat_coords_in_range;
use crate::grid::{in_brush, is_painted, Grid};
use vstd::arithmetic::div_mod::lemma_fundamental_div_mod;
use vstd::arithmetic::mul::lemma_mul_is_commutative;
use vstd::prelude::*;

verus! {

/// Toroidal wraparound: a live cell at `(0, 0)` is counted as a neighbor
/// of the far corner `(w-1, h-1)` (both axes wrap jointly), of `(w-1, 0)`
/// (the x axis wraps alone) and of `(0, h-1)` (the y axis wraps alone).
pub proof fn lemma_toroidal_wraparound(g: Grid)
    requires
        g.wf(),
        g.spec_width() >= 2,
        g.spec_height() >= 2,
        g.cell(0, 0),
    ensures
        g.live_neighbors(g.spec_width() - 1, g.spec_height() - 1) >= 1,
        g.live_neighbors(g.spec_width() - 1, 0) >= 1,
        g.live_neighbors(0, g.spec_height() - 1) >= 1,
{
}

/// No spontaneous generation: every cell of the successor of an all-dead
/// grid is dead, so an empty grid stays empty for any number of
/// generations.
pub proof fn lemma_empty_grid_stays_empty(prev: Grid, next: Grid)
    requires
        prev.wf(),
        prev.all_dead(),
        next.is_step_of(prev),
    ensures
        next.all_dead(),
{
    assert forall|x: int, y: int| next.in_bounds(x, y) implies !(#[trigger] next.cell(x, y)) by {
        assert(prev.live_neighbors(x, y) == 0);
    }
}

/// `next` arises from `prev` by exactly `n` transition steps.
pub open spec fn evolves_to(prev: Grid, next: Grid, n: nat) -> bool
    decreases n,
{
    if n == 0 {
        next == prev
    } else {
        exists|mid: Grid| mid.is_step_of(prev) && evolves_to(mid, next, (n - 1) as nat)
    }
}

/// Conservation: an all-dead grid is still all dead after any number of
/// generations.
pub proof fn lemma_empty_grid_stays_empty_forever(g0: Grid, gn: Grid, n: nat)
    requires
        g0.wf(),
        g0.all_dead(),
        evolves_to(g0, gn, n),
    ensures
        gn.all_dead(),
    decreases n,
{
    if n > 0 {
        let mid = choose|mid: Grid| mid.is_step_of(g0) && evolves_to(mid, gn, (n - 1) as nat);
        lemma_empty_grid_stays_empty(g0, mid);
        lemma_empty_grid_stays_empty_forever(mid, gn, (n - 1) as nat);
    }
}

/// An isolated cell dies: whatever its own state, a cell with no live
/// neighbors is dead in the next generation.
pub proof fn lemma_isolated_cell_dies(prev: Grid, next: Grid, x: int, y: int)
    requires
        prev.wf(),
        next.is_step_of(prev),
        prev.in_bounds(x, y),
        prev.live_neighbors(x, y) == 0,
    ensures
        !next.cell(x, y),
{
}

/// Two well-formed grids of the same dimensions whose cells agree hold
/// byte-identical buffers.
pub proof fn lemma_same_cells_same_buffer(g1: Grid, g2: Grid)
    requires
        g1.wf(),
        g2.wf(),
        g1.spec_width() == g2.spec_width(),
        g1.spec_height() == g2.spec_height(),
        forall|x: int, y: int|
            g1.in_bounds(x, y) ==> (#[trigger] g1.cell(x, y)) == g2.cell(x, y),
    ensures
        g1.cells@ == g2.cells@,
{
    let w = g1.spec_width();
    let h = g1.spec_height();
    assert forall|k: int| 0 <= k < g1.cells@.len() implies g1.cells@[k] == g2.cells@[k] by {
        let x = k % w;
        let y = k / w;
        lemma_flat_coords_in_range(k, w, h);
        lemma_fundamental_div_mod(k, w);
        lemma_mul_is_commutative(w, y);
        assert(y * w + x == k);
        assert(g1.in_bounds(x, y));
        assert(g1.cells@[k] == g1.cell(x, y));
        assert(g2.cells@[k] == g2.cell(x, y));
        assert(g1.cell(x, y) == g2.cell(x, y));
    }
    assert(g1.cells@ =~= g2.cells@);
}

/// Clearing is idempotent: any two all-dead grids of the same dimensions
/// hold the same buffer, so clearing an already cleared grid changes
/// nothing.
pub proof fn lemma_clear_idempotent(g1: Grid, g2: Grid)
    requires
        g1.wf(),
        g2.wf(),
        g1.spec_width() == g2.spec_width(),
        g1.spec_height() == g2.spec_height(),
        g1.all_dead(),
        g2.all_dead(),
    ensures
        g1.cells@ == g2.cells@,
{
    lemma_same_cells_same_buffer(g1, g2);
}

/// The brush shape away from the edges: painting an all-dead grid at an
/// interior cell leaves exactly the five plus-shaped cells alive.
pub proof fn lemma_paint_interior(prev: Grid, next: Grid, px: int, py: int)
    requires
        prev.wf(),
        prev.all_dead(),
        1 <= px < prev.spec_width() - 1,
        1 <= py < prev.spec_height() - 1,
        is_painted(next, prev, px, py),
    ensures
        forall|x: int, y: int|
            next.in_bounds(x, y) ==> ((#[trigger] next.cell(x, y)) <==> in_brush(px, py, x, y)),
{
}

/// Exactly the four cells of the 2x2 block with low corner `(a, b)` are
/// alive.
pub open spec fn is_block(g: Grid, a: int, b: int) -> bool {
    &&& g.in_bounds(a, b)
    &&& g.in_bounds(a + 1, b + 1)
    &&& forall|x: int, y: int|
        g.in_bounds(x, y) ==> ((#[trigger] g.cell(x, y)) <==> ((x == a || x == a + 1) && (y == b
            || y == b + 1)))
}

/// Still-life stability: on a grid of at least 4x4, a 2x2 block with no
/// other live cell is unchanged by a step — each block cell sees exactly
/// 3 live neighbors, and no dead cell sees more than 2 — so it persists
/// for any number of generations.
#[verifier::rlimit(100)]
pub proof fn lemma_block_still_life(prev: Grid, next: Grid, a: int, b: int)
    requires
        prev.wf(),
        prev.spec_width() >= 4,
        prev.spec_height() >= 4,
        is_block(prev, a, b),
        next.is_step_of(prev),
    ensures
        is_block(next, a, b),
        next.cells@ == prev.cells@,
{
    assert forall|x: int, y: int| prev.in_bounds(x, y) implies (#[trigger] next.cell(x, y))
        == prev.cell(x, y) by {
        if (x == a || x == a + 1) && (y == b || y == b + 1) {
            assert(prev.live_neighbors(x, y) == 3);
        } else {
            assert(prev.live_neighbors(x, y) <= 2);
        }
    }
    lemma_same_cells_same_buffer(next, prev);
}

/// Still-life stability over time: the block is byte-identical after any
/// number of generations.
pub proof fn lemma_block_still_life_forever(g0: Grid, gn: Grid, a: int, b: int, n: nat)
    requires
        g0.wf(),
        g0.spec_width() >= 4,
        g0.spec_height() >= 4,
        is_block(g0, a, b),
        evolves_to(g0, gn, n),
    ensures
        is_block(gn, a, b),
        gn.cells@ == g0.cells@,
    decreases n,
{
    if n > 0 {
        let mid = choose|mid: Grid| mid.is_step_of(g0) && evolves_to(mid, gn, (n - 1) as nat);
        lemma_block_still_life(g0, mid, a, b);
        lemma_block_still_life_forever(mid, gn, a, b, (n - 1) as nat);
    }
}

/// Exactly three vertically adjacent cells centered on `(cx, cy)` are
/// alive.
pub open spec fn is_v_blinker(g: Grid, cx: int, cy: int) -> bool {
    &&& 1 <= cx < g.spec_width() - 1
    &&& 1 <= cy < g.spec_height() - 1
    &&& forall|x: int, y: int|
        g.in_bounds(x, y) ==> ((#[trigger] g.cell(x, y)) <==> (x == cx && cy - 1 <= y <= cy + 1))
}

/// Exactly three horizontally adjacent cells centered on `(cx, cy)` are
/// alive.
pub open spec fn is_h_blinker(g: Grid, cx: int, cy: int) -> bool {
    &&& 1 <= cx < g.spec_width() - 1
    &&& 1 <= cy < g.spec_height() - 1
    &&& forall|x: int, y: int|
        g.in_bounds(x, y) ==> ((#[trigger] g.cell(x, y)) <==> (cx - 1 <= x <= cx + 1 && y == cy))
}

/// One step turns a vertical blinker into the horizontal blinker with
/// the same center, on grids of at least 5x5.
#[verifier::rlimit(100)]
pub proof fn lemma_blinker_v_to_h(prev: Grid, next: Grid, cx: int, cy: int)
    requires
        prev.wf(),
        prev.spec_width() >= 5,
        prev.spec_height() >= 5,
        is_v_blinker(prev, cx, cy),
        next.is_step_of(prev),
    ensures
        is_h_blinker(next, cx, cy),
{
    assert forall|x: int, y: int| next.in_bounds(x, y) implies ((#[trigger] next.cell(x, y)) <==> (
    cx - 1 <= x <= cx + 1 && y == cy)) by {
        if cx - 1 <= x <= cx + 1 && y == cy {
            assert(prev.live_neighbors(x, y) == 3 || (x == cx && prev.live_neighbors(x, y) == 2));
        } else {
            assert(prev.live_neighbors(x, y) != 3 || !prev.cell(x, y));
            assert(!(prev.cell(x, y) && prev.live_neighbors(x, y) == 2));
        }
    }
}

/// One step turns a horizontal blinker into the vertical blinker with
/// the same center, on grids of at least 5x5.
#[verifier::rlimit(100)]
pub proof fn lemma_blinker_h_to_v(prev: Grid, next: Grid, cx: int, cy: int)
    requires
        prev.wf(),
        prev.spec_width() >= 5,
        prev.spec_height() >= 5,
        is_h_blinker(prev, cx, cy),
        next.is_step_of(prev),
    ensures
        is_v_blinker(next, cx, cy),
{
    assert forall|x: int, y: int| next.in_bounds(x, y) implies ((#[trigger] next.cell(x, y)) <==> (
    x == cx && cy - 1 <= y <= cy + 1)) by {
        if x == cx && cy - 1 <= y <= cy + 1 {
            assert(prev.live_neighbors(x, y) == 3 || (y == cy && prev.live_neighbors(x, y) == 2));
        } else {
            assert(prev.live_neighbors(x, y) != 3 || !prev.cell(x, y));
            assert(!(prev.cell(x, y) && prev.live_neighbors(x, y) == 2));
        }
    }
}

/// Oscillator period: a blinker returns to a byte-identical buffer after
/// exactly two steps, flipping orientation in between.
pub proof fn lemma_blinker_period_two(g0: Grid, g1: Grid, g2: Grid, cx: int, cy: int)
    requires
        g0.wf(),
        g0.spec_width() >= 5,
        g0.spec_height() >= 5,
        is_v_blinker(g0, cx, cy),
        g1.is_step_of(g0),
        g2.is_step_of(g1),
    ensures
        is_h_blinker(g1, cx, cy),
        is_v_blinker(g2, cx, cy),
        g2.cells@ == g0.cells@,
{
    lemma_blinker_v_to_h(g0, g1, cx, cy);
    lemma_blinker_h_to_v(g1, g2, cx, cy);
    lemma_same_cells_same_buffer(g2, g0);
}

/// The brush at the corner `(0, 0)` of an all-dead grid does not wrap:
/// exactly the three in-bounds brush cells are alive.
pub proof fn lemma_paint_corner(prev: Grid, next: Grid)
    requires
        prev.wf(),
        prev.all_dead(),
        prev.spec_width() >= 2,
        prev.spec_height() >= 2,
        is_painted(next, prev, 0, 0),
    ensures
        forall|x: int, y: int|
            next.in_bounds(x, y) ==> ((#[trigger] next.cell(x, y)) <==> ((x == 0 && y == 0) || (x
                == 1 && y == 0) || (x == 0 && y == 1))),
{
}

} // verus!

