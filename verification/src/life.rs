//! The mathematical model of the automaton: grids of cells, neighbour counts
//! and the generation function.

use vstd::prelude::*;

verus! {

/// What is observable of one cell: whether it is alive, and the neighbour
/// count that was cached for it when the grid last advanced.
pub struct CellView {
    pub alive: bool,
    pub neighbors: nat,
}

/// A grid as rows of cells: `g[y][x]` is the cell in column `x` of row `y`.
pub type Grid = Seq<Seq<CellView>>;

/// Every row is as long as the grid is high.
pub open spec fn is_square(g: Grid) -> bool {
    forall|y: int| 0 <= y < g.len() ==> (#[trigger] g[y]).len() == g.len()
}

/// No cached neighbour count exceeds the eight positions a cell can have.
pub open spec fn counts_bounded(g: Grid) -> bool {
    forall|x: int, y: int|
        0 <= y < g.len() && 0 <= x < g[y].len() ==> (#[trigger] g[y][x]).neighbors <= 8
}

/// The invariant of every grid the library hands out.
pub open spec fn valid_grid(g: Grid) -> bool {
    is_square(g) && counts_bounded(g)
}

/// The position lies on the grid.
pub open spec fn in_bounds(g: Grid, x: int, y: int) -> bool {
    0 <= y < g.len() && 0 <= x < g[y].len()
}

/// The position lies on the grid and its cell is alive. Positions off the
/// grid are never alive: there is no wraparound.
pub open spec fn alive_at(g: Grid, x: int, y: int) -> bool {
    in_bounds(g, x, y) && g[y][x].alive
}

/// One for a live cell on the grid, zero otherwise.
pub open spec fn population_at(g: Grid, x: int, y: int) -> nat {
    if alive_at(g, x, y) {
        1
    } else {
        0
    }
}

/// The number of live cells among the eight positions around `(x, y)`.
pub open spec fn live_neighbors(g: Grid, x: int, y: int) -> nat {
    population_at(g, x - 1, y - 1) + population_at(g, x, y - 1) + population_at(g, x + 1, y - 1)
        + population_at(g, x - 1, y) + population_at(g, x + 1, y) + population_at(g, x - 1, y + 1)
        + population_at(g, x, y + 1) + population_at(g, x + 1, y + 1)
}

/// Conway's rule: a live cell stays alive with two or three live neighbours,
/// a dead cell comes alive with exactly three.
pub open spec fn lives_on(alive: bool, neighbors: nat) -> bool {
    if alive {
        neighbors == 2 || neighbors == 3
    } else {
        neighbors == 3
    }
}

/// The cell at `(x, y)` one generation later, with the count it was decided by.
pub open spec fn next_cell(g: Grid, x: int, y: int) -> CellView {
    CellView {
        alive: lives_on(g[y][x].alive, live_neighbors(g, x, y)),
        neighbors: live_neighbors(g, x, y),
    }
}

/// The grid one generation later. Every cell is decided from `g` alone, so the
/// step is synchronous.
pub open spec fn next_generation(g: Grid) -> Grid {
    Seq::new(g.len(), |y: int| Seq::new(g[y].len(), |x: int| next_cell(g, x, y)))
}

/// The grid `n` generations later.
pub open spec fn generations(g: Grid, n: nat) -> Grid
    decreases n,
{
    if n == 0 {
        g
    } else {
        next_generation(generations(g, (n - 1) as nat))
    }
}

/// The grid of `size` rows and columns in which every cell is dead.
pub open spec fn dead_grid(size: nat) -> Grid {
    Seq::new(size, |y: int| Seq::new(size, |x: int| CellView { alive: false, neighbors: 0 }))
}

/// No cell of the grid is alive.
pub open spec fn all_dead(g: Grid) -> bool {
    forall|x: int, y: int| in_bounds(g, x, y) ==> !(#[trigger] g[y][x]).alive
}

/// The two grids have the same shape and the same live cells; cached counts
/// may differ.
pub open spec fn same_population(a: Grid, b: Grid) -> bool {
    &&& a.len() == b.len()
    &&& forall|y: int| 0 <= y < a.len() ==> (#[trigger] a[y]).len() == b[y].len()
    &&& forall|x: int, y: int| in_bounds(a, x, y) ==> (#[trigger] a[y][x]).alive == b[y][x].alive
}

/// `g` with the cell at `(x, y)` replaced.
pub open spec fn with_cell(g: Grid, x: int, y: int, cell: CellView) -> Grid {
    g.update(y, g[y].update(x, cell))
}

/// `g` with the state of the cell at `(x, y)` set, its cached count kept.
pub open spec fn with_state(g: Grid, x: int, y: int, alive: bool) -> Grid {
    with_cell(g, x, y, CellView { alive, neighbors: g[y][x].neighbors })
}

/// `g` with the cell at `(x, y)` flipped between alive and dead.
pub open spec fn toggled(g: Grid, x: int, y: int) -> Grid {
    with_state(g, x, y, !g[y][x].alive)
}

/// `g` with every cell dead, cached counts kept.
pub open spec fn cleared(g: Grid) -> Grid {
    Seq::new(
        g.len(),
        |y: int|
            Seq::new(
                g[y].len(),
                |x: int| CellView { alive: false, neighbors: g[y][x].neighbors },
            ),
    )
}

/// Live cells around a position depend on the live cells alone.
pub proof fn lemma_neighbors_of_same_population(a: Grid, b: Grid, x: int, y: int)
    requires
        same_population(a, b),
    ensures
        live_neighbors(a, x, y) == live_neighbors(b, x, y),
{
    assert forall|i: int, j: int| population_at(a, i, j) == population_at(b, i, j) by {
        if in_bounds(a, i, j) {
            assert(a[j].len() == b[j].len());
            assert(a[j][i].alive == b[j][i].alive);
        } else if 0 <= j < a.len() {
            assert(a[j].len() == b[j].len());
        }
    }
}

/// A cell has at most eight live neighbours.
pub proof fn lemma_neighbors_at_most_eight(g: Grid, x: int, y: int)
    ensures
        live_neighbors(g, x, y) <= 8,
{
}

} // verus!
