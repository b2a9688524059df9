//! Laws of the generation rule and of the rendering, proved once for every
//! grid they speak of: determinism of a step, the toroidal wrap of the
//! neighbourhood, the block still-life, the period-two blinker, and the
//! line shape of the rendering.

use vstd::prelude::*;
use vstd::arithmetic::div_mod::{
    lemma_fundamental_div_mod,
    lemma_mod_bound,
    lemma_multiply_divide_lt,
    lemma_div_pos_is_pos,
};
use crate::grid::{
    grid_index,
    cell_at,
    wrap_dec,
    wrap_inc,
    live_neighbours,
    next_state,
    next_gen,
    render_spec,
    lemma_index_bound,
    lemma_index_decompose,
    lemma_render_at,
};

verus! {

/// Law (determinism): the next generation is a function of the current
/// snapshot alone; two grids in the same state step to the same state,
/// whatever order their cells are visited in.
pub proof fn lemma_step_deterministic(a: Seq<bool>, b: Seq<bool>, width: nat, height: nat)
    requires
        a == b,
    ensures
        next_gen(a, width, height) == next_gen(b, width, height),
{
}

/// Law (toroidal wrap): a live cell at `(0, 0)` is counted as a neighbour of
/// the opposite corner `(height - 1, width - 1)`.
pub proof fn lemma_toroidal_wrap(cells: Seq<bool>, width: nat, height: nat)
    requires
        width >= 1,
        height >= 1,
        cells.len() == width * height,
        cells[0],
    ensures
        live_neighbours(cells, width, height, (height - 1) as nat, (width - 1) as nat) >= 1,
{
    let r = (height - 1) as nat;
    let c = (width - 1) as nat;
    assert(wrap_inc(r, height) == 0);
    assert(wrap_inc(c, width) == 0);
    assert(cell_at(cells, width, 0, 0) == cells[0]);
}

/// A row-major position below `width * height` splits into an in-range row
/// and column.
proof fn lemma_split_index(i: int, width: nat, height: nat)
    requires
        0 <= i < width * height,
    ensures
        0 <= (i / width as int) < height,
        0 <= (i % width as int) < width,
        i == grid_index((i / width as int) as nat, (i % width as int) as nat, width),
{
    lemma_mod_bound(i, width as int);
    lemma_multiply_divide_lt(i, width as int, height as int);
    lemma_div_pos_is_pos(i, width as int);
    lemma_fundamental_div_mod(i, width as int);
    assert(width as int * (i / width as int) == (i / width as int) * width as int)
        by (nonlinear_arith);
}

/// One generation step, read back cell by cell.
pub proof fn lemma_next_gen_at(cells: Seq<bool>, width: nat, height: nat, r: nat, c: nat)
    requires
        cells.len() == width * height,
        r < height,
        c < width,
    ensures
        cell_at(next_gen(cells, width, height), width, r, c) == next_state(
            cell_at(cells, width, r, c),
            live_neighbours(cells, width, height, r, c),
        ),
{
    lemma_index_bound(r, c, width, height);
    lemma_index_decompose(r, c, width);
}

/// A grid whose only live cells are a 2-by-2 block whose top-left corner is
/// `(r0, c0)`.
pub open spec fn block_grid(width: nat, height: nat, r0: nat, c0: nat) -> Seq<bool> {
    Seq::new(
        width * height,
        |i: int|
            {
                let r = i / width as int;
                let c = i % width as int;
                (r == r0 || r == r0 + 1) && (c == c0 || c == c0 + 1)
            },
    )
}

/// Reading the block grid at an in-range cell gives block membership.
proof fn lemma_block_at(width: nat, height: nat, r0: nat, c0: nat, r: nat, c: nat)
    requires
        r < height,
        c < width,
    ensures
        cell_at(block_grid(width, height, r0, c0), width, r, c) == ((r == r0 || r == r0 + 1) && (c
            == c0 || c == c0 + 1)),
{
    lemma_index_bound(r, c, width, height);
    lemma_index_decompose(r, c, width);
}

/// One cell of the block grid is unchanged by a generation step.
#[verifier::rlimit(100)]
proof fn lemma_block_step_at(width: nat, height: nat, r0: nat, c0: nat, r: nat, c: nat)
    requires
        width >= 4,
        height >= 4,
        r0 + 2 <= height,
        c0 + 2 <= width,
        r < height,
        c < width,
    ensures
        cell_at(next_gen(block_grid(width, height, r0, c0), width, height), width, r, c) == cell_at(
            block_grid(width, height, r0, c0),
            width,
            r,
            c,
        ),
{
    let g = block_grid(width, height, r0, c0);
    lemma_next_gen_at(g, width, height, r, c);
    let rm = wrap_dec(r, height);
    let rp = wrap_inc(r, height);
    let cm = wrap_dec(c, width);
    let cp = wrap_inc(c, width);
    lemma_block_at(width, height, r0, c0, r, c);
    lemma_block_at(width, height, r0, c0, rm, cm);
    lemma_block_at(width, height, r0, c0, rm, c);
    lemma_block_at(width, height, r0, c0, rm, cp);
    lemma_block_at(width, height, r0, c0, r, cm);
    lemma_block_at(width, height, r0, c0, r, cp);
    lemma_block_at(width, height, r0, c0, rp, cm);
    lemma_block_at(width, height, r0, c0, rp, c);
    lemma_block_at(width, height, r0, c0, rp, cp);
}

/// Law (still life): a 2-by-2 block of live cells, everything else dead, is
/// unchanged by one generation step on any grid of at least 4 by 4 cells.
pub proof fn lemma_block_still_life(width: nat, height: nat, r0: nat, c0: nat)
    requires
        width >= 4,
        height >= 4,
        r0 + 2 <= height,
        c0 + 2 <= width,
    ensures
        next_gen(block_grid(width, height, r0, c0), width, height) == block_grid(
            width,
            height,
            r0,
            c0,
        ),
{
    let g = block_grid(width, height, r0, c0);
    assert forall|i: int| 0 <= i < width * height implies next_gen(g, width, height)[i] == g[i] by {
        lemma_split_index(i, width, height);
        let r = (i / width as int) as nat;
        let c = (i % width as int) as nat;
        lemma_block_step_at(width, height, r0, c0, r, c);
    };
    assert(next_gen(g, width, height) =~= g);
}

/// `n` generation steps from a starting state.
pub open spec fn iterate_gen(cells: Seq<bool>, width: nat, height: nat, n: nat) -> Seq<bool>
    decreases n,
{
    if n == 0 {
        cells
    } else {
        next_gen(iterate_gen(cells, width, height, (n - 1) as nat), width, height)
    }
}

/// Law (stasis): the block still-life is unchanged after any number of
/// generations.
pub proof fn lemma_block_stable(width: nat, height: nat, r0: nat, c0: nat, n: nat)
    requires
        width >= 4,
        height >= 4,
        r0 + 2 <= height,
        c0 + 2 <= width,
    ensures
        iterate_gen(block_grid(width, height, r0, c0), width, height, n) == block_grid(
            width,
            height,
            r0,
            c0,
        ),
    decreases n,
{
    if n > 0 {
        lemma_block_stable(width, height, r0, c0, (n - 1) as nat);
        lemma_block_still_life(width, height, r0, c0);
    }
}

/// A grid whose only live cells are the horizontal blinker
/// `(1, 0)`, `(1, 1)`, `(1, 2)`.
pub open spec fn blinker_row(width: nat, height: nat) -> Seq<bool> {
    Seq::new(
        width * height,
        |i: int|
            {
                let r = i / width as int;
                let c = i % width as int;
                r == 1 && (c == 0 || c == 1 || c == 2)
            },
    )
}

/// A grid whose only live cells are the vertical blinker
/// `(0, 1)`, `(1, 1)`, `(2, 1)`.
pub open spec fn blinker_column(width: nat, height: nat) -> Seq<bool> {
    Seq::new(
        width * height,
        |i: int|
            {
                let r = i / width as int;
                let c = i % width as int;
                (r == 0 || r == 1 || r == 2) && c == 1
            },
    )
}

/// Reading the horizontal blinker at an in-range cell.
proof fn lemma_blinker_row_at(width: nat, height: nat, r: nat, c: nat)
    requires
        r < height,
        c < width,
    ensures
        cell_at(blinker_row(width, height), width, r, c) == (r == 1 && (c == 0 || c == 1 || c
            == 2)),
{
    lemma_index_bound(r, c, width, height);
    lemma_index_decompose(r, c, width);
}

/// Reading the vertical blinker at an in-range cell.
proof fn lemma_blinker_column_at(width: nat, height: nat, r: nat, c: nat)
    requires
        r < height,
        c < width,
    ensures
        cell_at(blinker_column(width, height), width, r, c) == ((r == 0 || r == 1 || r == 2) && c
            == 1),
{
    lemma_index_bound(r, c, width, height);
    lemma_index_decompose(r, c, width);
}

/// One cell of the horizontal blinker steps to the vertical blinker.
#[verifier::rlimit(100)]
proof fn lemma_blinker_row_step_at(width: nat, height: nat, r: nat, c: nat)
    requires
        width >= 5,
        height >= 5,
        r < height,
        c < width,
    ensures
        cell_at(next_gen(blinker_row(width, height), width, height), width, r, c) == cell_at(
            blinker_column(width, height),
            width,
            r,
            c,
        ),
{
    let g = blinker_row(width, height);
    lemma_next_gen_at(g, width, height, r, c);
    let rm = wrap_dec(r, height);
    let rp = wrap_inc(r, height);
    let cm = wrap_dec(c, width);
    let cp = wrap_inc(c, width);
    lemma_blinker_row_at(width, height, r, c);
    lemma_blinker_row_at(width, height, rm, cm);
    lemma_blinker_row_at(width, height, rm, c);
    lemma_blinker_row_at(width, height, rm, cp);
    lemma_blinker_row_at(width, height, r, cm);
    lemma_blinker_row_at(width, height, r, cp);
    lemma_blinker_row_at(width, height, rp, cm);
    lemma_blinker_row_at(width, height, rp, c);
    lemma_blinker_row_at(width, height, rp, cp);
    lemma_blinker_column_at(width, height, r, c);
}

/// One cell of the vertical blinker steps to the horizontal blinker.
#[verifier::rlimit(100)]
proof fn lemma_blinker_column_step_at(width: nat, height: nat, r: nat, c: nat)
    requires
        width >= 5,
        height >= 5,
        r < height,
        c < width,
    ensures
        cell_at(next_gen(blinker_column(width, height), width, height), width, r, c) == cell_at(
            blinker_row(width, height),
            width,
            r,
            c,
        ),
{
    let g = blinker_column(width, height);
    lemma_next_gen_at(g, width, height, r, c);
    let rm = wrap_dec(r, height);
    let rp = wrap_inc(r, height);
    let cm = wrap_dec(c, width);
    let cp = wrap_inc(c, width);
    lemma_blinker_column_at(width, height, r, c);
    lemma_blinker_column_at(width, height, rm, cm);
    lemma_blinker_column_at(width, height, rm, c);
    lemma_blinker_column_at(width, height, rm, cp);
    lemma_blinker_column_at(width, height, r, cm);
    lemma_blinker_column_at(width, height, r, cp);
    lemma_blinker_column_at(width, height, rp, cm);
    lemma_blinker_column_at(width, height, rp, c);
    lemma_blinker_column_at(width, height, rp, cp);
    lemma_blinker_row_at(width, height, r, c);
}

/// Law (oscillator, first half): on any grid of at least 5 by 5 cells the
/// horizontal blinker becomes the vertical one in one step.
pub proof fn lemma_blinker_becomes_column(width: nat, height: nat)
    requires
        width >= 5,
        height >= 5,
    ensures
        next_gen(blinker_row(width, height), width, height) == blinker_column(width, height),
{
    let g = blinker_row(width, height);
    assert forall|i: int| 0 <= i < width * height implies next_gen(g, width, height)[i]
        == blinker_column(width, height)[i] by {
        lemma_split_index(i, width, height);
        let r = (i / width as int) as nat;
        let c = (i % width as int) as nat;
        lemma_blinker_row_step_at(width, height, r, c);
    };
    assert(next_gen(g, width, height) =~= blinker_column(width, height));
}

/// Law (oscillator, second half): the vertical blinker becomes the
/// horizontal one in one step.
pub proof fn lemma_blinker_becomes_row(width: nat, height: nat)
    requires
        width >= 5,
        height >= 5,
    ensures
        next_gen(blinker_column(width, height), width, height) == blinker_row(width, height),
{
    let g = blinker_column(width, height);
    assert forall|i: int| 0 <= i < width * height implies next_gen(g, width, height)[i]
        == blinker_row(width, height)[i] by {
        lemma_split_index(i, width, height);
        let r = (i / width as int) as nat;
        let c = (i % width as int) as nat;
        lemma_blinker_column_step_at(width, height, r, c);
    };
    assert(next_gen(g, width, height) =~= blinker_row(width, height));
}

/// Law (oscillator): the blinker has period two; it returns to its first
/// form after two generation steps.
pub proof fn lemma_blinker_period_two(width: nat, height: nat)
    requires
        width >= 5,
        height >= 5,
    ensures
        iterate_gen(blinker_row(width, height), width, height, 2) == blinker_row(width, height),
{
    lemma_blinker_becomes_column(width, height);
    lemma_blinker_becomes_row(width, height);
    assert(iterate_gen(blinker_row(width, height), width, height, 0) == blinker_row(width, height));
    assert(iterate_gen(blinker_row(width, height), width, height, 1) == blinker_column(
        width,
        height,
    ));
    assert(iterate_gen(blinker_row(width, height), width, height, 2) == blinker_row(width, height));
}

/// Law (render shape): the rendering is `height` lines of `width + 1`
/// characters each; line `k` holds `width` glyphs, none of them a newline,
/// and closes with exactly one newline.
pub proof fn lemma_render_shape(cells: Seq<bool>, width: nat, height: nat, k: nat)
    requires
        k < height,
    ensures
        render_spec(cells, width, height).len() == height * (width + 1),
        render_spec(cells, width, height)[grid_index(k, width, width + 1)] == '\n',
        forall|c: nat|
            c < width ==> #[trigger] render_spec(cells, width, height)[grid_index(k, c, width + 1)]
                != '\n',
{
    lemma_render_at(cells, width, height, k, width);
    assert forall|c: nat| c < width implies #[trigger] render_spec(cells, width, height)[grid_index(
        k,
        c,
        width + 1,
    )] != '\n' by {
        lemma_render_at(cells, width, height, k, c);
    };
}

} // verus!
