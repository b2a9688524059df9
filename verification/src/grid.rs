//! The grid (`Universe`) and its generation-advance rule.
//!
//! Cells are a dense row-major sequence of booleans (`true` = alive) of
//! length `width * height`. Neighbourhoods wrap around both edges (torus
//! topology). Degenerate grids with a zero dimension are permitted: every
//! operation is total on them and they hold no cells.

use vstd::prelude::*;
use vstd::arithmetic::div_mod::lemma_fundamental_div_mod_converse;
use vstd::string::StringExecFns;
use fixedbitset::FixedBitSet;
use crate::bitset::{fb_bits, fb_with_capacity, fb_set, fb_contains};

verus! {

/// The state of one cell.
#[derive(Clone, Copy, Debug, PartialEq, Eq, Structural)]
pub enum Cell {
    Dead,
    Alive,
}

/// Error returned when a row/column pair lies outside the grid.
#[derive(Clone, Copy, Debug, PartialEq, Eq, Structural)]
pub struct IndexOutOfRange;

/// A toroidal Game of Life grid.
pub struct Universe {
    width: u32,
    height: u32,
    cells: FixedBitSet,
}

/// The row-major position of cell `(row, col)` on a grid `width` cells wide.
pub open spec fn grid_index(row: nat, col: nat, width: nat) -> int {
    row * width + col as int
}

/// The cell at `(row, col)` of a row-major sequence `width` cells wide.
pub open spec fn cell_at(cells: Seq<bool>, width: nat, row: nat, col: nat) -> bool {
    cells[grid_index(row, col, width)]
}

/// The predecessor of `i` on a ring of size `n` (wraps 0 to `n - 1`).
pub open spec fn wrap_dec(i: nat, n: nat) -> nat {
    if i == 0 {
        (n - 1) as nat
    } else {
        (i - 1) as nat
    }
}

/// The successor of `i` on a ring of size `n` (wraps `n - 1` to 0).
pub open spec fn wrap_inc(i: nat, n: nat) -> nat {
    if i + 1 == n {
        0
    } else {
        i + 1
    }
}

pub open spec fn b2n(b: bool) -> nat {
    if b {
        1
    } else {
        0
    }
}

/// How many of the eight toroidally wrapped neighbours of `(row, col)` are
/// alive.
pub open spec fn live_neighbours(
    cells: Seq<bool>,
    width: nat,
    height: nat,
    row: nat,
    col: nat,
) -> nat {
    let rm = wrap_dec(row, height);
    let rp = wrap_inc(row, height);
    let cm = wrap_dec(col, width);
    let cp = wrap_inc(col, width);
    b2n(cell_at(cells, width, rm, cm)) + b2n(cell_at(cells, width, rm, col)) + b2n(
        cell_at(cells, width, rm, cp),
    ) + b2n(cell_at(cells, width, row, cm)) + b2n(cell_at(cells, width, row, cp)) + b2n(
        cell_at(cells, width, rp, cm),
    ) + b2n(cell_at(cells, width, rp, col)) + b2n(cell_at(cells, width, rp, cp))
}

/// The B3/S23 transition: a live cell survives with two or three live
/// neighbours, a dead cell is born with exactly three.
pub open spec fn next_state(alive: bool, neighbours: nat) -> bool {
    if alive {
        neighbours == 2 || neighbours == 3
    } else {
        neighbours == 3
    }
}

/// One generation of the whole grid, every cell computed from the same
/// snapshot.
pub open spec fn next_gen(cells: Seq<bool>, width: nat, height: nat) -> Seq<bool> {
    Seq::new(
        cells.len(),
        |i: int|
            next_state(
                cells[i],
                live_neighbours(
                    cells,
                    width,
                    height,
                    (i / width as int) as nat,
                    (i % width as int) as nat,
                ),
            ),
    )
}

/// The glyph that renders one cell.
pub open spec fn glyph(alive: bool) -> char {
    if alive {
        '⬛'
    } else {
        '⬜'
    }
}

/// The rendering of a grid: one line per row, one glyph per cell, each row
/// closed by a newline.
pub open spec fn render_spec(cells: Seq<bool>, width: nat, height: nat) -> Seq<char> {
    Seq::new(
        height * (width + 1),
        |j: int|
            {
                let line = width as int + 1;
                if j % line == width as int {
                    '\n'
                } else {
                    glyph(cells[(j / line) * (width as int) + j % line])
                }
            },
    )
}

/// A row-major position is within the grid when its row and column are.
pub proof fn lemma_index_bound(row: nat, col: nat, width: nat, height: nat)
    by (nonlinear_arith)
    requires
        row < height,
        col < width,
    ensures
        0 <= grid_index(row, col, width) < width * height,
{
}

/// Row and column can be read back from a row-major position.
pub proof fn lemma_index_decompose(row: nat, col: nat, width: nat)
    requires
        col < width,
    ensures
        grid_index(row, col, width) / width as int == row,
        grid_index(row, col, width) % width as int == col,
{
    lemma_fundamental_div_mod_converse(
        grid_index(row, col, width),
        width as int,
        row as int,
        col as int,
    );
}

/// What the rendering holds at column `c` of line `row`: a glyph for each
/// cell of the row, then a newline.
pub proof fn lemma_render_at(cells: Seq<bool>, width: nat, height: nat, row: nat, c: nat)
    requires
        row < height,
        c <= width,
    ensures
        render_spec(cells, width, height).len() == height * (width + 1),
        0 <= grid_index(row, c, width + 1) < height * (width + 1),
        c < width ==> render_spec(cells, width, height)[grid_index(row, c, width + 1)] == glyph(
            cells[grid_index(row, c, width)],
        ),
        c == width ==> render_spec(cells, width, height)[grid_index(row, c, width + 1)] == '\n',
{
    lemma_index_bound(row, c, width + 1, height);
    assert((width + 1) * height == height * (width + 1)) by (nonlinear_arith);
    lemma_index_decompose(row, c, width + 1);
}

impl Universe {
    /// The grid's width in cells.
    pub closed spec fn spec_width(self) -> nat {
        self.width as nat
    }

    /// The grid's height in cells.
    pub closed spec fn spec_height(self) -> nat {
        self.height as nat
    }

    /// The live/dead state of every cell, row-major.
    pub closed spec fn spec_cells(self) -> Seq<bool> {
        fb_bits(self.cells)
    }

    /// The grid invariant: one bit per cell, and the cell count representable
    /// as a machine size.
    pub open spec fn wf(self) -> bool {
        &&& self.spec_cells().len() == self.spec_width() * self.spec_height()
        &&& self.spec_width() * self.spec_height() <= usize::MAX
    }

    /// Builds a grid from one seeding draw per cell, row-major
    /// (`true` = alive). The caller supplies the draws, e.g. thresholded
    /// samples of a random source.
    pub fn new(width: u32, height: u32, seed: &Vec<bool>) -> (u: Universe)
        requires
            width * height <= usize::MAX,
            seed@.len() == width * height,
        ensures
            u.wf(),
            u.spec_width() == width,
            u.spec_height() == height,
            u.spec_cells() == seed@,
    {
        let size: usize = (width as usize) * (height as usize);
        let mut cells = fb_with_capacity(size);
        let mut i: usize = 0;
        while i < size
            invariant
                i <= size,
                fb_bits(cells).len() == size,
                seed@.len() == size,
                forall|j: int| 0 <= j < i ==> fb_bits(cells)[j] == seed@[j],
            decreases size - i,
        {
            fb_set(&mut cells, i, seed[i]);
            i += 1;
        }
        let u = Universe { width, height, cells };
        proof {
            assert(u.spec_cells() =~= seed@);
        }
        u
    }

    /// The grid's width in cells.
    pub fn width(&self) -> (w: u32)
        ensures
            w == self.spec_width(),
    {
        self.width
    }

    /// The grid's height in cells.
    pub fn height(&self) -> (h: u32)
        ensures
            h == self.spec_height(),
    {
        self.height
    }

    /// Read-only view of the packed cell bits (row-major); the caller must
    /// not retain it past the next mutating call.
    pub fn cells(&self) -> (r: &FixedBitSet)
        ensures
            fb_bits(*r) == self.spec_cells(),
    {
        &self.cells
    }

    /// Read-only view of the packed cell bits (row-major).
    pub fn get_cells(&self) -> (r: &FixedBitSet)
        ensures
            fb_bits(*r) == self.spec_cells(),
    {
        &self.cells
    }

    /// The buffer position of an in-range cell.
    fn get_index(&self, row: u32, column: u32) -> (idx: usize)
        requires
            self.wf(),
            row < self.spec_height(),
            column < self.spec_width(),
        ensures
            idx == grid_index(row as nat, column as nat, self.spec_width()),
            idx < self.spec_cells().len(),
    {
        proof {
            lemma_index_bound(row as nat, column as nat, self.spec_width(), self.spec_height());
        }
        (row as usize) * (self.width as usize) + (column as usize)
    }

    /// Whether the cell at an in-range position is alive.
    fn get_bit(&self, row: u32, column: u32) -> (b: bool)
        requires
            self.wf(),
            row < self.spec_height(),
            column < self.spec_width(),
        ensures
            b == cell_at(self.spec_cells(), self.spec_width(), row as nat, column as nat),
    {
        let idx = self.get_index(row, column);
        fb_contains(&self.cells, idx)
    }

    /// Counts the live cells among the eight toroidally wrapped neighbours
    /// of an in-range cell.
    #[verifier::rlimit(50)]
    pub fn live_neighbour_count(&self, row: u32, column: u32) -> (n: u8)
        requires
            self.wf(),
            row < self.spec_height(),
            column < self.spec_width(),
        ensures
            n == live_neighbours(
                self.spec_cells(),
                self.spec_width(),
                self.spec_height(),
                row as nat,
                column as nat,
            ),
    {
        let rm = if row == 0 {
            self.height - 1
        } else {
            row - 1
        };
        let rp = if row + 1 == self.height {
            0
        } else {
            row + 1
        };
        let cm = if column == 0 {
            self.width - 1
        } else {
            column - 1
        };
        let cp = if column + 1 == self.width {
            0
        } else {
            column + 1
        };
        let mut count: u8 = 0;
        if self.get_bit(rm, cm) {
            count = count + 1;
        }
        if self.get_bit(rm, column) {
            count = count + 1;
        }
        if self.get_bit(rm, cp) {
            count = count + 1;
        }
        if self.get_bit(row, cm) {
            count = count + 1;
        }
        if self.get_bit(row, cp) {
            count = count + 1;
        }
        if self.get_bit(rp, cm) {
            count = count + 1;
        }
        if self.get_bit(rp, column) {
            count = count + 1;
        }
        if self.get_bit(rp, cp) {
            count = count + 1;
        }
        count
    }

    /// Flips exactly one cell; rejects an out-of-range position and leaves
    /// the grid unchanged in that case.
    pub fn toggle_cell(&mut self, row: u32, column: u32) -> (r: Result<(), IndexOutOfRange>)
        requires
            old(self).wf(),
        ensures
            final(self).wf(),
            final(self).spec_width() == old(self).spec_width(),
            final(self).spec_height() == old(self).spec_height(),
            row < old(self).spec_height() && column < old(self).spec_width() ==> {
                &&& r is Ok
                &&& final(self).spec_cells() == old(self).spec_cells().update(
                    grid_index(row as nat, column as nat, old(self).spec_width()),
                    !old(self).spec_cells()[grid_index(
                        row as nat,
                        column as nat,
                        old(self).spec_width(),
                    )],
                )
            },
            !(row < old(self).spec_height() && column < old(self).spec_width()) ==> {
                &&& r == Result::<(), IndexOutOfRange>::Err(IndexOutOfRange)
                &&& *final(self) == *old(self)
            },
    {
        if row < self.height && column < self.width {
            let idx = self.get_index(row, column);
            let cur = fb_contains(&self.cells, idx);
            fb_set(&mut self.cells, idx, !cur);
            Ok(())
        } else {
            Err(IndexOutOfRange)
        }
    }

    /// Sets every cell to dead; dimensions unchanged.
    pub fn clear(&mut self)
        requires
            old(self).wf(),
        ensures
            final(self).wf(),
            final(self).spec_width() == old(self).spec_width(),
            final(self).spec_height() == old(self).spec_height(),
            forall|i: int| 0 <= i < final(self).spec_cells().len() ==> !final(self).spec_cells()[i],
    {
        let size: usize = (self.width as usize) * (self.height as usize);
        let mut i: usize = 0;
        while i < size
            invariant
                i <= size,
                fb_bits(self.cells).len() == size,
                self.width == old(self).width,
                self.height == old(self).height,
                forall|j: int| 0 <= j < i ==> !fb_bits(self.cells)[j],
            decreases size - i,
        {
            fb_set(&mut self.cells, i, false);
            i += 1;
        }
    }

    /// Re-seeds every cell from one draw per cell, row-major; dimensions
    /// unchanged.
    pub fn reset(&mut self, seed: &Vec<bool>)
        requires
            old(self).wf(),
            seed@.len() == old(self).spec_width() * old(self).spec_height(),
        ensures
            final(self).wf(),
            final(self).spec_width() == old(self).spec_width(),
            final(self).spec_height() == old(self).spec_height(),
            final(self).spec_cells() == seed@,
    {
        let size: usize = (self.width as usize) * (self.height as usize);
        let mut i: usize = 0;
        while i < size
            invariant
                i <= size,
                fb_bits(self.cells).len() == size,
                seed@.len() == size,
                self.width == old(self).width,
                self.height == old(self).height,
                forall|j: int| 0 <= j < i ==> fb_bits(self.cells)[j] == seed@[j],
            decreases size - i,
        {
            fb_set(&mut self.cells, i, seed[i]);
            i += 1;
        }
        proof {
            assert(self.spec_cells() =~= seed@);
        }
    }

    /// Destructive resize: the cell buffer is replaced by an all-dead one of
    /// the new shape; prior state is discarded, not cropped or padded.
    pub fn set_width(&mut self, width: u32)
        requires
            old(self).wf(),
            width * old(self).spec_height() <= usize::MAX,
        ensures
            final(self).wf(),
            final(self).spec_width() == width,
            final(self).spec_height() == old(self).spec_height(),
            forall|i: int| 0 <= i < final(self).spec_cells().len() ==> !final(self).spec_cells()[i],
    {
        self.width = width;
        self.cells = fb_with_capacity((width as usize) * (self.height as usize));
    }

    /// Destructive resize: the cell buffer is replaced by an all-dead one of
    /// the new shape; prior state is discarded, not cropped or padded.
    pub fn set_height(&mut self, height: u32)
        requires
            old(self).wf(),
            old(self).spec_width() * height <= usize::MAX,
        ensures
            final(self).wf(),
            final(self).spec_width() == old(self).spec_width(),
            final(self).spec_height() == height,
            forall|i: int| 0 <= i < final(self).spec_cells().len() ==> !final(self).spec_cells()[i],
    {
        self.height = height;
        self.cells = fb_with_capacity((self.width as usize) * (height as usize));
    }

    /// Advances the whole grid one generation under the B3/S23 rule. Every
    /// cell's next state is computed from the same frozen snapshot: the new
    /// generation is written to a separate buffer that replaces the current
    /// one only after the full pass.
    pub fn tick(&mut self)
        requires
            old(self).wf(),
        ensures
            final(self).wf(),
            final(self).spec_width() == old(self).spec_width(),
            final(self).spec_height() == old(self).spec_height(),
            final(self).spec_cells() == next_gen(
                old(self).spec_cells(),
                old(self).spec_width(),
                old(self).spec_height(),
            ),
    {
        let ghost w = old(self).spec_width();
        let ghost h = old(self).spec_height();
        let ghost cur = old(self).spec_cells();
        let mut next = crate::bitset::fb_clone(&self.cells);
        let mut row: u32 = 0;
        while row < self.height
            invariant
                *self == *old(self),
                old(self).wf(),
                w == old(self).spec_width(),
                h == old(self).spec_height(),
                cur == old(self).spec_cells(),
                row <= h,
                fb_bits(next).len() == w * h,
                forall|i: int| 0 <= i < row * w ==> fb_bits(next)[i] == next_gen(cur, w, h)[i],
            decreases h - row,
        {
            let mut col: u32 = 0;
            while col < self.width
                invariant
                    *self == *old(self),
                    old(self).wf(),
                    w == old(self).spec_width(),
                    h == old(self).spec_height(),
                    cur == old(self).spec_cells(),
                    row < h,
                    col <= w,
                    fb_bits(next).len() == w * h,
                    forall|i: int|
                        0 <= i < row * w + col ==> fb_bits(next)[i] == next_gen(cur, w, h)[i],
                decreases w - col,
            {
                let idx = self.get_index(row, col);
                let alive = fb_contains(&self.cells, idx);
                let n = self.live_neighbour_count(row, col);
                let newval = if alive {
                    n == 2 || n == 3
                } else {
                    n == 3
                };
                fb_set(&mut next, idx, newval);
                proof {
                    lemma_index_decompose(row as nat, col as nat, w);
                    assert(fb_bits(next)[idx as int] == next_gen(cur, w, h)[idx as int]);
                }
                col += 1;
            }
            proof {
                assert(row * w + w == (row + 1) * w) by (nonlinear_arith);
            }
            row += 1;
        }
        self.cells = next;
        proof {
            assert(h * w == w * h) by (nonlinear_arith);
            assert(self.spec_cells() =~= next_gen(cur, w, h));
        }
    }

    /// Marks each listed `(row, column)` pair as alive. The batch is
    /// validated first: if any pair is out of range the call fails and the
    /// grid is left unchanged.
    pub fn set_cells(&mut self, cells: &[(u32, u32)]) -> (r: Result<(), IndexOutOfRange>)
        requires
            old(self).wf(),
        ensures
            final(self).wf(),
            final(self).spec_width() == old(self).spec_width(),
            final(self).spec_height() == old(self).spec_height(),
            (r is Ok) <==> (forall|k: int|
                0 <= k < cells@.len() ==> cells@[k].0 < old(self).spec_height() && cells@[k].1
                    < old(self).spec_width()),
            r is Ok ==> forall|i: int|
                0 <= i < final(self).spec_cells().len() ==> final(self).spec_cells()[i] == (old(
                    self,
                ).spec_cells()[i] || exists|k: int|
                    0 <= k < cells@.len() && i == grid_index(
                        cells@[k].0 as nat,
                        cells@[k].1 as nat,
                        old(self).spec_width(),
                    )),
            r is Err ==> *final(self) == *old(self),
    {
        let ghost w = old(self).spec_width();
        let ghost h = old(self).spec_height();
        let mut k: usize = 0;
        while k < cells.len()
            invariant
                *self == *old(self),
                old(self).wf(),
                k <= cells@.len(),
                forall|k2: int| 0 <= k2 < k ==> cells@[k2].0 < h && cells@[k2].1 < w,
                w == old(self).spec_width(),
                h == old(self).spec_height(),
            decreases cells@.len() - k,
        {
            let (row, col) = cells[k];
            if !(row < self.height && col < self.width) {
                return Err(IndexOutOfRange);
            }
            k += 1;
        }
        let mut k: usize = 0;
        while k < cells.len()
            invariant
                old(self).wf(),
                self.wf(),
                k <= cells@.len(),
                forall|k2: int| 0 <= k2 < cells@.len() ==> cells@[k2].0 < h && cells@[k2].1 < w,
                w == old(self).spec_width(),
                h == old(self).spec_height(),
                self.spec_width() == w,
                self.spec_height() == h,
                forall|i: int|
                    0 <= i < self.spec_cells().len() ==> self.spec_cells()[i] == (old(
                        self,
                    ).spec_cells()[i] || exists|k2: int|
                        0 <= k2 < k && i == grid_index(cells@[k2].0 as nat, cells@[k2].1 as nat, w)),
            decreases cells@.len() - k,
        {
            let (row, col) = cells[k];
            let idx = self.get_index(row, col);
            fb_set(&mut self.cells, idx, true);
            proof {
                let ghost prev = old(self).spec_cells();
                assert forall|i: int| 0 <= i < self.spec_cells().len() implies self.spec_cells()[i]
                    == (prev[i] || exists|k2: int|
                    0 <= k2 < k + 1 && i == grid_index(
                        cells@[k2].0 as nat,
                        cells@[k2].1 as nat,
                        w,
                    )) by {
                    if i == idx {
                        assert(k < cells@.len() && i == grid_index(
                            cells@[k as int].0 as nat,
                            cells@[k as int].1 as nat,
                            w,
                        ));
                    } else {
                        if exists|k2: int|
                            0 <= k2 < k && i == grid_index(
                                cells@[k2].0 as nat,
                                cells@[k2].1 as nat,
                                w,
                            ) {
                            let k2 = choose|k2: int|
                                0 <= k2 < k && i == grid_index(
                                    cells@[k2].0 as nat,
                                    cells@[k2].1 as nat,
                                    w,
                                );
                            assert(0 <= k2 < k + 1 && i == grid_index(
                                cells@[k2].0 as nat,
                                cells@[k2].1 as nat,
                                w,
                            ));
                        }
                    }
                }
            }
            k += 1;
        }
        Ok(())
    }

    /// Renders the grid as text: one line per row, one glyph per cell, each
    /// line closed by a newline.
    pub fn render(&self) -> (s: String)
        requires
            self.wf(),
        ensures
            s@ == render_spec(self.spec_cells(), self.spec_width(), self.spec_height()),
    {
        let ghost w = self.spec_width();
        let ghost h = self.spec_height();
        let ghost target = render_spec(self.spec_cells(), w, h);
        let mut out = String::new();
        let mut row: u32 = 0;
        while row < self.height
            invariant
                self.wf(),
                w == self.spec_width(),
                h == self.spec_height(),
                target == render_spec(self.spec_cells(), w, h),
                row <= h,
                out@ == target.subrange(0, grid_index(row as nat, 0, w + 1)),
            decreases h - row,
        {
            let mut col: u32 = 0;
            while col < self.width
                invariant
                    self.wf(),
                    w == self.spec_width(),
                    h == self.spec_height(),
                    target == render_spec(self.spec_cells(), w, h),
                    row < h,
                    col <= w,
                    out@ == target.subrange(0, grid_index(row as nat, col as nat, w + 1)),
                decreases w - col,
            {
                let alive = self.get_bit(row, col);
                if alive {
                    out.append("⬛");
                } else {
                    out.append("⬜");
                }
                proof {
                    reveal_strlit("⬛");
                    reveal_strlit("⬜");
                    lemma_render_at(self.spec_cells(), w, h, row as nat, col as nat);
                    assert(out@ =~= target.subrange(
                        0,
                        grid_index(row as nat, (col + 1) as nat, w + 1),
                    ));
                }
                col += 1;
            }
            out.append("\n");
            proof {
                reveal_strlit("\n");
                lemma_render_at(self.spec_cells(), w, h, row as nat, w);
                assert(grid_index(row as nat, w, w + 1) + 1 == grid_index(
                    (row + 1) as nat,
                    0,
                    w + 1,
                )) by (nonlinear_arith);
                assert(out@ =~= target.subrange(0, grid_index((row + 1) as nat, 0, w + 1)));
            }
            row += 1;
        }
        proof {
            assert(h * (w + 1) == grid_index(h, 0, w + 1)) by (nonlinear_arith);
            assert(out@ =~= target);
        }
        out
    }
}

} // verus!
