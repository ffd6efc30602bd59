//! Well-known patterns, as sets of positions.

use crate::life::{
    generations, in_bounds, is_square, live_neighbors, next_generation, CellView, Grid,
};
use vstd::prelude::*;

verus! {

/// The five cells of the glider, by column and row within its box of three by
/// three:
///
/// ```text
/// . . X
/// X . X
/// . X X
/// ```
pub open spec fn glider_cell(dx: int, dy: int) -> bool {
    ||| dx == 2 && dy == 0
    ||| dx == 0 && dy == 1
    ||| dx == 2 && dy == 1
    ||| dx == 1 && dy == 2
    ||| dx == 2 && dy == 2
}

/// `g` with a glider written into the box whose top left corner is `(x, y)`:
/// the glider's cells are alive, every other cell is as before.
pub open spec fn with_glider(g: Grid, x: int, y: int) -> Grid {
    Seq::new(
        g.len(),
        |j: int|
            Seq::new(
                g[j].len(),
                |i: int|
                    if glider_cell(i - x, j - y) {
                        CellView { alive: true, neighbors: g[j][i].neighbors }
                    } else {
                        g[j][i]
                    },
            ),
    )
}

/// How many offsets a randomly dropped glider chooses from, per axis, on a
/// grid of `size`: three quarters of the grid, cut down so that the glider's
/// box, which starts one column and two rows beyond the offset, stays on the
/// grid.
pub open spec fn glider_offsets(size: int) -> int {
    if (size / 4) * 3 <= size - 4 {
        (size / 4) * 3
    } else {
        size - 4
    }
}

/// The offsets are among those a dropped glider chooses from on a grid of
/// `size`.
pub open spec fn glider_drop_fits(size: int, drop: (int, int)) -> bool {
    0 <= drop.0 < glider_offsets(size) && 0 <= drop.1 < glider_offsets(size)
}

/// The position lies in the block of two by two cells whose top left corner
/// is `(bx, by)`.
pub open spec fn block_cell(bx: int, by: int, x: int, y: int) -> bool {
    bx <= x <= bx + 1 && by <= y <= by + 1
}

/// The live cells of the square grid `g` are exactly a block at `(bx, by)`.
pub open spec fn is_block(g: Grid, bx: int, by: int) -> bool {
    &&& is_square(g)
    &&& 0 <= bx && bx + 1 < g.len()
    &&& 0 <= by && by + 1 < g.len()
    &&& forall|x: int, y: int|
        in_bounds(g, x, y) ==> (#[trigger] g[y][x]).alive == block_cell(bx, by, x, y)
}

/// The live cells of the square grid `g` are exactly three in a row, centred
/// at `(cx, cy)`, with room on the grid for the column they turn into.
pub open spec fn is_blinker_row(g: Grid, cx: int, cy: int) -> bool {
    &&& is_square(g)
    &&& 1 <= cx && cx + 1 < g.len()
    &&& 1 <= cy && cy + 1 < g.len()
    &&& forall|x: int, y: int|
        in_bounds(g, x, y) ==> (#[trigger] g[y][x]).alive == (y == cy && cx - 1 <= x <= cx + 1)
}

/// The live cells of the square grid `g` are exactly three in a column,
/// centred at `(cx, cy)`, with room on the grid for the row they turn into.
pub open spec fn is_blinker_column(g: Grid, cx: int, cy: int) -> bool {
    &&& is_square(g)
    &&& 1 <= cx && cx + 1 < g.len()
    &&& 1 <= cy && cy + 1 < g.len()
    &&& forall|x: int, y: int|
        in_bounds(g, x, y) ==> (#[trigger] g[y][x]).alive == (x == cx && cy - 1 <= y <= cy + 1)
}

/// The generation function keeps the shape of a square grid.
pub proof fn lemma_next_generation_shape(g: Grid)
    requires
        is_square(g),
    ensures
        is_square(next_generation(g)),
        next_generation(g).len() == g.len(),
        forall|x: int, y: int| in_bounds(next_generation(g), x, y) == in_bounds(g, x, y),
{
    assert forall|y: int| 0 <= y < g.len() implies (#[trigger] next_generation(g)[y]).len()
        == g.len() by {
        assert(g[y].len() == g.len());
    }
}

/// What a cell of a square grid sees around it, spelled out for the cells
/// that lie on the grid.
proof fn lemma_rows_around(g: Grid, y: int)
    requires
        is_square(g),
    ensures
        0 <= y - 1 < g.len() ==> g[y - 1].len() == g.len(),
        0 <= y < g.len() ==> g[y].len() == g.len(),
        0 <= y + 1 < g.len() ==> g[y + 1].len() == g.len(),
{
}

/// A block is a still life: one generation later the same cells are alive.
pub proof fn lemma_block_is_still(g: Grid, bx: int, by: int)
    requires
        is_block(g, bx, by),
    ensures
        is_block(next_generation(g), bx, by),
{
    let n = next_generation(g);
    lemma_next_generation_shape(g);
    assert forall|x: int, y: int| in_bounds(n, x, y) implies (#[trigger] n[y][x]).alive
        == block_cell(bx, by, x, y) by {
        lemma_rows_around(g, y);
        assert(g[y][x].alive == block_cell(bx, by, x, y));
    }
}

/// A block stays where it is for any number of generations.
pub proof fn lemma_block_stays(g: Grid, bx: int, by: int, n: nat)
    requires
        is_block(g, bx, by),
    ensures
        is_block(generations(g, n), bx, by),
    decreases n,
{
    if n > 0 {
        lemma_block_stays(g, bx, by, (n - 1) as nat);
        lemma_block_is_still(generations(g, (n - 1) as nat), bx, by);
    }
}

/// Three in a row turn into three in a column about the same centre.
pub proof fn lemma_blinker_row_turns(g: Grid, cx: int, cy: int)
    requires
        is_blinker_row(g, cx, cy),
    ensures
        is_blinker_column(next_generation(g), cx, cy),
{
    let n = next_generation(g);
    lemma_next_generation_shape(g);
    assert forall|x: int, y: int| in_bounds(n, x, y) implies (#[trigger] n[y][x]).alive == (x
        == cx && cy - 1 <= y <= cy + 1) by {
        lemma_rows_around(g, y);
        assert(g[y][x].alive == (y == cy && cx - 1 <= x <= cx + 1));
    }
}

/// Three in a column turn into three in a row about the same centre.
pub proof fn lemma_blinker_column_turns(g: Grid, cx: int, cy: int)
    requires
        is_blinker_column(g, cx, cy),
    ensures
        is_blinker_row(next_generation(g), cx, cy),
{
    let n = next_generation(g);
    lemma_next_generation_shape(g);
    assert forall|x: int, y: int| in_bounds(n, x, y) implies (#[trigger] n[y][x]).alive == (y
        == cy && cx - 1 <= x <= cx + 1) by {
        lemma_rows_around(g, y);
        assert(g[y][x].alive == (x == cx && cy - 1 <= y <= cy + 1));
    }
}

/// A blinker has period two: after one generation the row is a column, after
/// two it is the row it was.
pub proof fn lemma_blinker_period_two(g: Grid, cx: int, cy: int)
    requires
        is_blinker_row(g, cx, cy),
    ensures
        is_blinker_column(generations(g, 1), cx, cy),
        is_blinker_row(generations(g, 2), cx, cy),
{
    reveal_with_fuel(generations, 3);
    lemma_blinker_row_turns(g, cx, cy);
    lemma_blinker_column_turns(next_generation(g), cx, cy);
}

/// The glider as it looks `phase` generations after `glider_cell`, in the
/// coordinates of the box it started in. After four generations it is the
/// glider again, one column to the right and one row down.
pub open spec fn glider_phase_cell(phase: int, dx: int, dy: int) -> bool {
    if phase == 0 {
        glider_cell(dx, dy)
    } else if phase == 1 {
        ||| dx == 1 && dy == 0
        ||| dx == 2 && dy == 1
        ||| dx == 3 && dy == 1
        ||| dx == 1 && dy == 2
        ||| dx == 2 && dy == 2
    } else if phase == 2 {
        ||| dx == 2 && dy == 0
        ||| dx == 3 && dy == 1
        ||| dx == 1 && dy == 2
        ||| dx == 2 && dy == 2
        ||| dx == 3 && dy == 2
    } else if phase == 3 {
        ||| dx == 1 && dy == 1
        ||| dx == 3 && dy == 1
        ||| dx == 2 && dy == 2
        ||| dx == 3 && dy == 2
        ||| dx == 2 && dy == 3
    } else {
        glider_cell(dx - 1, dy - 1)
    }
}

/// The live cells of the square grid `g` are exactly a glider in the given
/// phase whose box started at `(x, y)`, and the four by four cells that the
/// glider crosses in one cycle lie on the grid.
pub open spec fn is_glider_phase(g: Grid, phase: int, x: int, y: int) -> bool {
    &&& is_square(g)
    &&& 0 <= x && x + 3 < g.len()
    &&& 0 <= y && y + 3 < g.len()
    &&& forall|i: int, j: int|
        in_bounds(g, i, j) ==> (#[trigger] g[j][i]).alive == glider_phase_cell(
            phase,
            i - x,
            j - y,
        )
}

/// The live cells of the square grid `g` are exactly a glider whose box has
/// its top left corner at `(x, y)`.
pub open spec fn is_glider(g: Grid, x: int, y: int) -> bool {
    &&& is_square(g)
    &&& 0 <= x && x + 2 < g.len()
    &&& 0 <= y && y + 2 < g.len()
    &&& forall|i: int, j: int|
        in_bounds(g, i, j) ==> (#[trigger] g[j][i]).alive == glider_cell(i - x, j - y)
}

/// One generation takes a glider from one phase to the next.
proof fn lemma_glider_phase_step(g: Grid, phase: int, x: int, y: int)
    requires
        0 <= phase < 4,
        is_glider_phase(g, phase, x, y),
    ensures
        is_glider_phase(next_generation(g), phase + 1, x, y),
{
    let n = next_generation(g);
    lemma_next_generation_shape(g);
    assert forall|i: int, j: int| in_bounds(n, i, j) implies (#[trigger] n[j][i]).alive
        == glider_phase_cell(phase + 1, i - x, j - y) by {
        lemma_rows_around(g, j);
        lemma_glider_cell_step(g, phase, x, y, i, j);
    }
}

/// One cell of the step from one phase of the glider to the next.
proof fn lemma_glider_cell_step(g: Grid, phase: int, x: int, y: int, i: int, j: int)
    requires
        0 <= phase < 4,
        is_glider_phase(g, phase, x, y),
        in_bounds(g, i, j),
    ensures
        next_generation(g)[j][i].alive == glider_phase_cell(phase + 1, i - x, j - y),
{
    lemma_rows_around(g, j);
    assert(g[j][i].alive == glider_phase_cell(phase, i - x, j - y));
}

/// A glider moves one column to the right and one row down in four
/// generations and keeps its shape, as long as the cells it crosses on the
/// way lie on the grid.
pub proof fn lemma_glider_moves_diagonally(g: Grid, x: int, y: int)
    requires
        is_glider(g, x, y),
        x + 3 < g.len(),
        y + 3 < g.len(),
    ensures
        is_glider(generations(g, 4), x + 1, y + 1),
{
    reveal_with_fuel(generations, 5);
    let g1 = next_generation(g);
    let g2 = next_generation(g1);
    let g3 = next_generation(g2);
    let g4 = next_generation(g3);
    assert(is_glider_phase(g, 0, x, y));
    lemma_glider_phase_step(g, 0, x, y);
    lemma_glider_phase_step(g1, 1, x, y);
    lemma_glider_phase_step(g2, 2, x, y);
    lemma_glider_phase_step(g3, 3, x, y);
    assert(generations(g, 4) == g4);
    assert forall|i: int, j: int| in_bounds(g4, i, j) implies (#[trigger] g4[j][i]).alive
        == glider_cell(i - (x + 1), j - (y + 1)) by {
        assert(g4[j][i].alive == glider_phase_cell(4, i - x, j - y));
    }
}

} // verus!
