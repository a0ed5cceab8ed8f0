//! The grid state store: a dense, row-major buffer of cell states,
//! fixed in size for the lifetime of a run.

use vstd::prelude::*;

verus! {

/// A toroidal Game-of-Life grid. Cell `(x, y)` lives at flat index
/// `y * width + x`; `true` is alive, `false` is dead.
pub struct Grid {
    pub cells: Vec<bool>,
    pub width: usize,
    pub height: usize,
}

impl Grid {
    /// The buffer holds exactly one state per cell.
    pub open spec fn wf(self) -> bool {
        self.cells@.len() == self.width * self.height
    }

    pub open spec fn spec_width(self) -> int {
        self.width as int
    }

    pub open spec fn spec_height(self) -> int {
        self.height as int
    }

    /// Whether the cell at `(x, y)` is alive.
    pub open spec fn cell(self, x: int, y: int) -> bool {
        self.cells@[y * self.spec_width() + x]
    }

    /// `(x, y)` names a cell of this grid.
    pub open spec fn in_bounds(self, x: int, y: int) -> bool {
        0 <= x < self.spec_width() && 0 <= y < self.spec_height()
    }

    /// Every cell of the grid is dead.
    pub open spec fn all_dead(self) -> bool {
        forall|x: int, y: int| self.in_bounds(x, y) ==> !(#[trigger] self.cell(x, y))
    }

    /// Allocates a `width * height` grid with every cell dead.
    pub fn create(width: usize, height: usize) -> (g: Grid)
        requires
            width * height <= usize::MAX,
        ensures
            g.wf(),
            g.spec_width() == width,
            g.spec_height() == height,
            g.all_dead(),
    {
        let n = width * height;
        let mut cells: Vec<bool> = Vec::new();
        let mut i: usize = 0;
        while i < n
            invariant
                i <= n,
                cells@.len() == i,
                forall|k: int| 0 <= k < i ==> !(#[trigger] cells@[k]),
            decreases n - i,
        {
            cells.push(false);
            i = i + 1;
        }
        let g = Grid { cells, width, height };
        proof {
            assert forall|x: int, y: int| g.in_bounds(x, y) implies !(#[trigger] g.cell(x, y)) by {
                lemma_flat_index_in_range(x, y, width as int, height as int);
            }
        }
        g
    }

    pub fn width(&self) -> (w: usize)
        ensures
            w == self.spec_width(),
    {
        self.width
    }

    pub fn height(&self) -> (h: usize)
        ensures
            h == self.spec_height(),
    {
        self.height
    }

    /// Reads the state of the cell at `(x, y)`.
    pub fn get(&self, x: usize, y: usize) -> (alive: bool)
        requires
            self.wf(),
            self.in_bounds(x as int, y as int),
        ensures
            alive == self.cell(x as int, y as int),
    {
        proof {
            assert(self.cells.len() == self.cells@.len());
            lemma_flat_index_in_range(x as int, y as int, self.spec_width(), self.spec_height());
        }
        self.cells[y * self.width + x]
    }
}

/// A cell's flat index lies inside the buffer.
pub proof fn lemma_flat_index_in_range(x: int, y: int, w: int, h: int) by (nonlinear_arith)
    requires
        0 <= x < w,
        0 <= y < h,
    ensures
        0 <= y * w + x < w * h,
{
}

/// Distinct cells have distinct flat indices.
pub proof fn lemma_flat_index_injective(x1: int, y1: int, x2: int, y2: int, w: int) by (nonlinear_arith)
    requires
        0 <= x1 < w,
        0 <= x2 < w,
        y1 * w + x1 == y2 * w + x2,
    ensures
        x1 == x2 && y1 == y2,
{
}

/// The plus-shaped paint brush at `(px, py)` covers that cell and its
/// four orthogonal neighbors; it does not wrap around the grid edge.
pub open spec fn in_brush(px: int, py: int, x: int, y: int) -> bool {
    ||| (x == px && y == py)
    ||| (x + 1 == px && y == py)
    ||| (x == px + 1 && y == py)
    ||| (x == px && y + 1 == py)
    ||| (x == px && y == py + 1)
}

/// `next` is `prev` with the brush applied at `(px, py)`: the brush
/// cells that lie on the grid are alive, every other cell keeps its
/// state, and an off-grid target changes nothing.
pub open spec fn is_painted(next: Grid, prev: Grid, px: int, py: int) -> bool {
    &&& next.wf()
    &&& next.spec_width() == prev.spec_width()
    &&& next.spec_height() == prev.spec_height()
    &&& forall|x: int, y: int|
        prev.in_bounds(x, y) ==> (#[trigger] next.cell(x, y)) == (prev.cell(x, y) || (
        prev.in_bounds(px, py) && in_brush(px, py, x, y)))
}

/// The columns along the seed row that the fixed startup glyph fills.
pub open spec fn glyph_col(x: int) -> bool {
    ||| 80 <= x <= 87
    ||| 89 <= x <= 93
    ||| 97 <= x <= 99
    ||| 106 <= x <= 112
    ||| 114 <= x <= 118
}

/// The row that carries the startup glyph.
pub const SEED_ROW: usize = 80;

/// Whether column `x` belongs to the startup glyph.
pub fn is_glyph_col(x: usize) -> (b: bool)
    ensures
        b == glyph_col(x as int),
{
    (80 <= x && x <= 87) || (89 <= x && x <= 93) || (97 <= x && x <= 99) || (106 <= x && x <= 112)
        || (114 <= x && x <= 118)
}

impl Grid {
    /// Sets the cell at `(x, y)` alive, leaving every other cell alone.
    fn set_alive(&mut self, x: usize, y: usize)
        requires
            old(self).wf(),
            old(self).in_bounds(x as int, y as int),
        ensures
            final(self).wf(),
            final(self).spec_width() == old(self).spec_width(),
            final(self).spec_height() == old(self).spec_height(),
            final(self).cell(x as int, y as int),
            forall|i: int, j: int|
                old(self).in_bounds(i, j) && !(i == x as int && j == y as int) ==> (
                #[trigger] final(self).cell(i, j)) == old(self).cell(i, j),
    {
        proof {
            assert(self.cells.len() == self.cells@.len());
            lemma_flat_index_in_range(x as int, y as int, self.spec_width(), self.spec_height());
        }
        let k: usize = y * self.width + x;
        self.cells[k] = true;
        proof {
            assert forall|i: int, j: int|
                self.in_bounds(i, j) && !(i == x as int && j == y as int) implies (
            #[trigger] self.cell(i, j)) == old(self).cell(i, j) by {
                lemma_flat_index_in_range(i, j, self.spec_width(), self.spec_height());
                if j * self.spec_width() + i == k as int {
                    lemma_flat_index_injective(i, j, x as int, y as int, self.spec_width());
                }
            }
        }
    }

    /// Applies the plus-shaped brush at `(x, y)`: that cell and its four
    /// orthogonal neighbors become alive. Off-grid targets are ignored,
    /// and brush arms that fall off the edge are skipped rather than
    /// wrapped — unlike the transition rule, painting is a screen-space
    /// gesture and is not toroidal.
    pub fn paint(&mut self, x: usize, y: usize)
        requires
            old(self).wf(),
        ensures
            is_painted(*final(self), *old(self), x as int, y as int),
    {
        if x >= self.width || y >= self.height {
            return ;
        }
        self.set_alive(x, y);
        if x > 0 {
            self.set_alive(x - 1, y);
        }
        if x + 1 < self.width {
            self.set_alive(x + 1, y);
        }
        if y > 0 {
            self.set_alive(x, y - 1);
        }
        if y + 1 < self.height {
            self.set_alive(x, y + 1);
        }
    }

    /// Sets every cell dead; the dimensions are kept.
    pub fn clear(&mut self)
        requires
            old(self).wf(),
        ensures
            final(self).wf(),
            final(self).spec_width() == old(self).spec_width(),
            final(self).spec_height() == old(self).spec_height(),
            final(self).all_dead(),
    {
        proof {
            assert(self.cells.len() == self.cells@.len());
        }
        let g = Grid::create(self.width, self.height);
        *self = g;
    }

    /// Installs `next` as the current generation. The dimensions must
    /// match the store's.
    pub fn replace(&mut self, next: Grid)
        requires
            old(self).wf(),
            next.wf(),
            next.spec_width() == old(self).spec_width(),
            next.spec_height() == old(self).spec_height(),
        ensures
            *final(self) == next,
    {
        *self = next;
    }

    /// Allocates a grid holding the fixed startup glyph: the glyph
    /// columns of the seed row are alive and every other cell is dead.
    /// Glyph cells that fall outside a small grid are skipped.
    pub fn with_seed(width: usize, height: usize) -> (g: Grid)
        requires
            width * height <= usize::MAX,
        ensures
            g.wf(),
            g.spec_width() == width,
            g.spec_height() == height,
            forall|x: int, y: int|
                g.in_bounds(x, y) ==> (#[trigger] g.cell(x, y)) == (y == SEED_ROW as int
                    && glyph_col(x)),
    {
        let mut g = Grid::create(width, height);
        if SEED_ROW < height {
            let mut x: usize = 80;
            while x <= 118 && x < width
                invariant
                    g.wf(),
                    g.spec_width() == width,
                    g.spec_height() == height,
                    SEED_ROW < height,
                    80 <= x <= 119,
                    forall|i: int, j: int|
                        g.in_bounds(i, j) ==> (#[trigger] g.cell(i, j)) == (j == SEED_ROW as int
                            && i < x && glyph_col(i)),
                decreases 119 - x,
            {
                if is_glyph_col(x) {
                    g.set_alive(x, SEED_ROW);
                }
                x = x + 1;
            }
        }
        g
    }

    /// Encodes the grid as a row-major RGBA pixel buffer: four bytes per
    /// cell, with the green channel carrying the state (`255` alive, `0`
    /// dead) and a constant blue fill for rendering.
    pub fn to_pixels(&self) -> (buf: Vec<u8>)
        requires
            self.wf(),
        ensures
            buf@.len() == 4 * self.cells@.len(),
            forall|k: int|
                0 <= k < self.cells@.len() ==> #[trigger] pixel_ok(self.cells@, buf@, k),
    {
        let n = self.cells.len();
        let mut buf: Vec<u8> = Vec::new();
        let mut i: usize = 0;
        while i < n
            invariant
                i <= n,
                n == self.cells@.len(),
                buf@.len() == 4 * i,
                forall|k: int| 0 <= k < i ==> #[trigger] pixel_ok(self.cells@, buf@, k),
            decreases n - i,
        {
            let state: u8 = if self.cells[i] {
                255
            } else {
                0
            };
            let ghost pre = buf@;
            buf.push(0);
            buf.push(state);
            buf.push(0);
            buf.push(255);
            proof {
                assert(buf@ =~= pre + seq![0u8, state, 0u8, 255u8]);
                assert forall|k: int| 0 <= k < i + 1 implies #[trigger] pixel_ok(
                    self.cells@,
                    buf@,
                    k,
                ) by {
                    if k < i {
                        assert(pixel_ok(self.cells@, pre, k));
                        assert(buf@[4 * k] == pre[4 * k]);
                        assert(buf@[4 * k + 1] == pre[4 * k + 1]);
                        assert(buf@[4 * k + 2] == pre[4 * k + 2]);
                        assert(buf@[4 * k + 3] == pre[4 * k + 3]);
                    } else {
                        assert(k == i);
                        assert(buf@[4 * k] == 0u8);
                        assert(buf@[4 * k + 1] == state);
                        assert(buf@[4 * k + 2] == 0u8);
                        assert(buf@[4 * k + 3] == 255u8);
                    }
                }
            }
            i = i + 1;
        }
        buf
    }
}

/// The four bytes that render cell `k`: a zero red channel, the state in
/// the green channel, a zero blue channel, and a constant alpha.
pub open spec fn pixel_ok(cells: Seq<bool>, buf: Seq<u8>, k: int) -> bool {
    &&& buf[4 * k] == 0u8
    &&& buf[4 * k + 1] == (if cells[k] {
        255u8
    } else {
        0u8
    })
    &&& buf[4 * k + 2] == 0u8
    &&& buf[4 * k + 3] == 255u8
}

} // verus!
