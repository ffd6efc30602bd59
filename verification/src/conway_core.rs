//! The grid and its operations.

use crate::laws::lemma_dead_grid_stays_dead;
use crate::life::{
    all_dead, cleared, dead_grid, in_bounds, is_square, lemma_neighbors_at_most_eight,
    lemma_neighbors_of_same_population, live_neighbors, next_cell, next_generation, population_at,
    same_population, toggled, valid_grid, with_state, CellView, Grid,
};
use crate::patterns::{glider_drop_fits, with_glider};
use crate::random::random_below;
use vstd::prelude::*;

verus! {

/// The two states of a cell.
#[derive(Clone, Copy, Debug, PartialEq, Eq, Structural)]
pub enum CellState {
    Alive,
    Dead,
}

/// One cell: its state in the current generation, the state buffered for the
/// next one, and the neighbour count cached when the grid last advanced.
pub struct ConwayCell {
    current_state: CellState,
    next_state: CellState,
    neighbors: u64,
}

impl View for ConwayCell {
    type V = CellView;

    closed spec fn view(&self) -> CellView {
        CellView {
            alive: self.current_state == CellState::Alive,
            neighbors: self.neighbors as nat,
        }
    }
}

impl ConwayCell {
    /// Buffers the state the cell takes on in the next generation.
    fn set_next(&mut self, next_cell_state: CellState)
        ensures
            final(self).next_state == next_cell_state,
            final(self).current_state == old(self).current_state,
            final(self).neighbors == old(self).neighbors,
    {
        self.next_state = next_cell_state;
    }

    /// Moves the cell on to the state buffered for it.
    fn tick(&mut self)
        ensures
            final(self).current_state == old(self).next_state,
            final(self).next_state == old(self).next_state,
            final(self).neighbors == old(self).neighbors,
    {
        self.current_state = self.next_state
    }

    /// Whether the cell is alive in the current generation.
    pub fn is_alive(&self) -> (alive: bool)
        ensures
            alive == self@.alive,
    {
        self.current_state == CellState::Alive
    }

    /// The number of live neighbours the cell had when the grid last advanced.
    pub fn neighbors(&self) -> (count: u64)
        ensures
            count == self@.neighbors,
    {
        self.neighbors
    }
}

/// A square grid of cells, `size` rows of `size` columns.
pub struct ConwayMatrix {
    matrix: Vec<Vec<ConwayCell>>,
}

impl View for ConwayMatrix {
    type V = Grid;

    closed spec fn view(&self) -> Grid {
        Seq::new(
            self.matrix@.len(),
            |y: int| Seq::new(self.matrix@[y]@.len(), |x: int| self.matrix@[y]@[x]@),
        )
    }
}

/// The neighbour at `(i, j)` of the cell at `(x, y)` as the count sees it: the
/// cell itself never counts.
spec fn counted(g: Grid, x: int, y: int, i: int, j: int) -> nat {
    if i == x && j == y {
        0
    } else {
        population_at(g, i, j)
    }
}

/// What column `i` adds to the count of `(x, y)` from its rows above `upto`.
#[verifier::opaque]
spec fn column_prefix(g: Grid, x: int, y: int, i: int, upto: int) -> nat {
    (if y - 1 < upto {
        counted(g, x, y, i, y - 1)
    } else {
        0
    }) + (if y < upto {
        counted(g, x, y, i, y)
    } else {
        0
    }) + (if y + 1 < upto {
        counted(g, x, y, i, y + 1)
    } else {
        0
    })
}

/// What the columns left of `upto` add to the count of `(x, y)`.
#[verifier::opaque]
spec fn columns_prefix(g: Grid, x: int, y: int, upto: int) -> nat {
    (if x - 1 < upto {
        column_prefix(g, x, y, x - 1, y + 2)
    } else {
        0
    }) + (if x < upto {
        column_prefix(g, x, y, x, y + 2)
    } else {
        0
    }) + (if x + 1 < upto {
        column_prefix(g, x, y, x + 1, y + 2)
    } else {
        0
    })
}

proof fn lemma_column_start(g: Grid, x: int, y: int, i: int, from: int)
    requires
        from == y - 1 || (y == 0 && from == 0),
    ensures
        column_prefix(g, x, y, i, from) == 0,
{
    reveal(column_prefix);
}

proof fn lemma_column_step(g: Grid, x: int, y: int, i: int, j: int)
    requires
        y - 1 <= j <= y + 1,
    ensures
        column_prefix(g, x, y, i, j + 1) == column_prefix(g, x, y, i, j) + counted(g, x, y, i, j),
        column_prefix(g, x, y, i, j + 1) <= 3,
{
    reveal(column_prefix);
}

proof fn lemma_column_end(g: Grid, x: int, y: int, i: int, to: int)
    requires
        to == y + 2 || (to == y + 1 && to == g.len()),
    ensures
        column_prefix(g, x, y, i, to) == column_prefix(g, x, y, i, y + 2),
{
    reveal(column_prefix);
}

proof fn lemma_columns_start(g: Grid, x: int, y: int, from: int)
    requires
        from == x - 1 || (x == 0 && from == 0),
    ensures
        columns_prefix(g, x, y, from) == 0,
{
    reveal(columns_prefix);
    reveal(column_prefix);
}

proof fn lemma_columns_step(g: Grid, x: int, y: int, i: int)
    requires
        x - 1 <= i <= x + 1,
    ensures
        columns_prefix(g, x, y, i + 1) == columns_prefix(g, x, y, i) + column_prefix(
            g,
            x,
            y,
            i,
            y + 2,
        ),
        columns_prefix(g, x, y, i) <= 6,
{
    reveal(columns_prefix);
    reveal(column_prefix);
}

proof fn lemma_columns_end(g: Grid, x: int, y: int, to: int)
    requires
        is_square(g),
        0 <= y < g.len(),
        to == x + 2 || (to == x + 1 && to == g.len()),
    ensures
        columns_prefix(g, x, y, to) == live_neighbors(g, x, y),
{
    reveal(columns_prefix);
    reveal(column_prefix);
    if 0 <= y - 1 {
        assert(g[y - 1].len() == g.len());
    }
    assert(g[y].len() == g.len());
    if y + 1 < g.len() {
        assert(g[y + 1].len() == g.len());
    }
}

/// `g` with the cells that come before `(x, y)`, row by row, set dead.
spec fn cleared_before(g: Grid, x: int, y: int) -> Grid {
    Seq::new(
        g.len(),
        |j: int|
            Seq::new(
                g[j].len(),
                |i: int|
                    if j < y || (j == y && i < x) {
                        CellView { alive: false, neighbors: g[j][i].neighbors }
                    } else {
                        g[j][i]
                    },
            ),
    )
}

impl ConwayMatrix {
    /// The grid is square and its cached counts are in range.
    pub open spec fn wf(&self) -> bool {
        valid_grid(self@)
    }

    /// The stored cell in column `x` of row `y`.
    spec fn cell(&self, x: int, y: int) -> ConwayCell {
        self.matrix@[y]@[x]
    }

    /// The grid has `size` rows of `size` cells.
    spec fn has_size(&self, size: int) -> bool {
        &&& self.matrix@.len() == size
        &&& forall|j: int| 0 <= j < size ==> (#[trigger] self.matrix@[j])@.len() == size
    }

    /// The cell at `(x, y)` holds, buffered, its state in the generation after
    /// `before`, and the count that decided it.
    spec fn staged(&self, before: Grid, x: int, y: int) -> bool {
        &&& (self.cell(x, y).next_state == CellState::Alive) == next_cell(before, x, y).alive
        &&& self.cell(x, y).neighbors == next_cell(before, x, y).neighbors
    }

    /// The cell at `(x, y)` is alive exactly if it is in `before`.
    spec fn same_state(&self, before: Grid, x: int, y: int) -> bool {
        self.cell(x, y)@.alive == before[y][x].alive
    }

    /// The cell at `(x, y)` has moved on to the generation after `before`.
    spec fn committed(&self, before: Grid, x: int, y: int) -> bool {
        self.cell(x, y)@ == next_cell(before, x, y)
    }

    /// A grid of `size` by `size` dead cells.
    pub fn new(size: usize) -> (grid: Self)
        ensures
            grid.wf(),
            grid@ == dead_grid(size as nat),
    {
        let mut matrix: Vec<Vec<ConwayCell>> = Vec::with_capacity(size);
        for y in 0..size
            invariant
                matrix@.len() == y,
                forall|j: int|
                    0 <= j < y ==> (#[trigger] matrix@[j])@.len() == size && forall|i: int|
                        0 <= i < size ==> (#[trigger] matrix@[j]@[i])@ == (CellView {
                            alive: false,
                            neighbors: 0,
                        }),
        {
            let mut row: Vec<ConwayCell> = Vec::with_capacity(size);
            for x in 0..size
                invariant
                    row@.len() == x,
                    forall|i: int|
                        0 <= i < x ==> (#[trigger] row@[i])@ == (CellView {
                            alive: false,
                            neighbors: 0,
                        }),
            {
                row.push(
                    ConwayCell {
                        current_state: CellState::Dead,
                        next_state: CellState::Dead,
                        neighbors: 0,
                    },
                );
            }
            matrix.push(row);
        }
        let grid = Self { matrix };
        assert(grid@ =~~= dead_grid(size as nat));
        grid
    }

    /// The number of rows, which is the number of columns.
    pub fn size(&self) -> (size: usize)
        ensures
            size == self@.len(),
    {
        self.matrix.len()
    }

    /// The cell in column `x` of row `y`.
    pub fn cell_at_index(&self, x: usize, y: usize) -> (cell: &ConwayCell)
        requires
            self.wf(),
            x < self@.len(),
            y < self@.len(),
        ensures
            cell@ == self@[y as int][x as int],
    {
        assert(self@[y as int].len() == self@.len());
        &self.matrix[y][x]
    }

    /// Counts the live cells among the up to eight cells that touch `(x, y)`.
    /// Positions beyond the edge hold no cell and add nothing.
    pub fn num_neighbors_for_cell(&self, x: usize, y: usize) -> (count: u64)
        requires
            self.wf(),
            x < self@.len(),
            y < self@.len(),
        ensures
            count == live_neighbors(self@, x as int, y as int),
    {
        let size = self.size();
        let x_from = if x > 0 { x - 1 } else { 0 };
        let x_to = if x + 1 < size { x + 2 } else { size };
        let y_from = if y > 0 { y - 1 } else { 0 };
        let y_to = if y + 1 < size { y + 2 } else { size };
        let ghost g = self@;
        let mut neighbors: u64 = 0;
        proof {
            lemma_columns_start(g, x as int, y as int, x_from as int);
        }
        let mut nx = x_from;
        while nx < x_to
            invariant
                x_from <= nx <= x_to,
                g == self@,
                is_square(g),
                size == g.len(),
                x < size,
                y < size,
                x_from == x - 1 || (x == 0 && x_from == 0),
                x_to <= size,
                x_to == x + 2 || (x_to == x + 1 && x_to == size),
                y_from == y - 1 || (y == 0 && y_from == 0),
                y_to <= size,
                y_to == y + 2 || (y_to == y + 1 && y_to == size),
                neighbors == columns_prefix(g, x as int, y as int, nx as int),
            decreases x_to - nx,
        {
            let ghost before = neighbors;
            proof {
                lemma_column_start(g, x as int, y as int, nx as int, y_from as int);
                lemma_columns_step(g, x as int, y as int, nx as int);
            }
            let mut ny = y_from;
            while ny < y_to
                invariant
                    y_from <= ny <= y_to,
                    g == self@,
                    is_square(g),
                    size == g.len(),
                    nx < size,
                    y < size,
                    y_from == y - 1 || (y == 0 && y_from == 0),
                    y_to <= size,
                    y_to == y + 2 || (y_to == y + 1 && y_to == size),
                    before <= 6,
                    neighbors == before + column_prefix(
                        g,
                        x as int,
                        y as int,
                        nx as int,
                        ny as int,
                    ),
                    neighbors <= before + 3,
                decreases y_to - ny,
            {
                proof {
                    lemma_column_step(g, x as int, y as int, nx as int, ny as int);
                    assert(g[ny as int].len() == g.len());
                }
                if !(nx == x && ny == y) && self.matrix[ny][nx].is_alive() {
                    neighbors += 1;
                }
                ny += 1;
            }
            proof {
                lemma_column_end(g, x as int, y as int, nx as int, y_to as int);
            }
            nx += 1;
        }
        proof {
            lemma_columns_end(g, x as int, y as int, x_to as int);
        }
        neighbors
    }

    /// Advances every cell by one generation. All neighbour counts are taken
    /// from the generation before any cell moves on to the next.
    pub fn tick(&mut self)
        requires
            old(self).wf(),
        ensures
            final(self).wf(),
            final(self)@ == next_generation(old(self)@),
            forall|x: int, y: int|
                in_bounds(old(self)@, x, y) && live_neighbors(old(self)@, x, y) == 3
                    ==> (#[trigger] final(self)@[y][x]).alive,
            forall|x: int, y: int|
                in_bounds(old(self)@, x, y) && old(self)@[y][x].alive
                    && live_neighbors(old(self)@, x, y) <= 1
                    ==> !(#[trigger] final(self)@[y][x]).alive,
            forall|x: int, y: int|
                in_bounds(old(self)@, x, y) && old(self)@[y][x].alive
                    && live_neighbors(old(self)@, x, y) > 3
                    ==> !(#[trigger] final(self)@[y][x]).alive,
            all_dead(old(self)@) ==> all_dead(final(self)@),
    {
        let size = self.size();
        let ghost before = self@;
        assert(self.has_size(size as int)) by {
            assert forall|j: int| 0 <= j < size implies (#[trigger] self.matrix@[j])@.len()
                == size by {
                assert(self@[j].len() == self@.len());
            }
        }
        assert forall|i: int, j: int| 0 <= j < size && 0 <= i < size implies
            (#[trigger] self.cell(i, j)).neighbors <= 8 && self.same_state(before, i, j) by {
            assert(self@[j][i].neighbors <= 8);
        }
        // set next states
        let mut y: usize = 0;
        while y < size
            invariant
                y <= size,
                valid_grid(before),
                before.len() == size,
                self.has_size(size as int),
                forall|i: int, j: int|
                    0 <= j < size && 0 <= i < size ==> #[trigger] self.same_state(before, i, j),
                forall|i: int, j: int|
                    0 <= j < size && 0 <= i < size ==> (#[trigger] self.cell(i, j)).neighbors <= 8,
                forall|i: int, j: int|
                    0 <= j < y && 0 <= i < size ==> #[trigger] self.staged(before, i, j),
            decreases size - y,
        {
            let mut x: usize = 0;
            while x < size
                invariant
                    y < size,
                    x <= size,
                    valid_grid(before),
                    before.len() == size,
                    self.has_size(size as int),
                    forall|i: int, j: int|
                        0 <= j < size && 0 <= i < size ==> #[trigger] self.same_state(before, i, j),
                    forall|i: int, j: int|
                        0 <= j < size && 0 <= i < size ==> (#[trigger] self.cell(i, j)).neighbors
                            <= 8,
                    forall|i: int, j: int|
                        0 <= j < y && 0 <= i < size ==> #[trigger] self.staged(before, i, j),
                    forall|i: int| 0 <= i < x ==> #[trigger] self.staged(before, i, y as int),
                decreases size - x,
            {
                proof {
                    self.lemma_view_of_stored(size as int, before);
                    lemma_neighbors_of_same_population(self@, before, x as int, y as int);
                    lemma_neighbors_at_most_eight(before, x as int, y as int);
                    assert(self.same_state(before, x as int, y as int));
                    assert(before[y as int].len() == size);
                }
                let is_alive = self.matrix[y][x].current_state == CellState::Alive;
                let neighbors = self.num_neighbors_for_cell(x, y);
                let mut next_cell_state = CellState::Dead;
                if is_alive && (neighbors == 2 || neighbors == 3) {
                    next_cell_state = CellState::Alive;
                } else if is_alive && neighbors < 2 {
                    next_cell_state = CellState::Dead;
                } else if is_alive && neighbors > 3 {
                    next_cell_state = CellState::Dead;
                } else if !is_alive && neighbors == 3 {
                    next_cell_state = CellState::Alive;
                }
                let ghost prior = *self;
                let cell = &mut self.matrix[y][x];
                cell.set_next(next_cell_state);
                cell.neighbors = neighbors;
                proof {
                    assert(self.has_size(size as int));
                    assert forall|i: int, j: int| 0 <= j < size && 0 <= i < size && !(i == x && j
                        == y) implies #[trigger] self.cell(i, j) == prior.cell(i, j) by {}
                    assert(self.staged(before, x as int, y as int));
                    assert forall|i: int, j: int| 0 <= j < size && 0 <= i < size implies
                        (#[trigger] self.cell(i, j)).neighbors <= 8
                            && self.same_state(before, i, j) by {
                        assert(prior.cell(i, j).neighbors <= 8);
                        assert(prior.same_state(before, i, j));
                    }
                    assert forall|i: int, j: int| 0 <= j < y && 0 <= i < size implies
                        #[trigger] self.staged(before, i, j) by {
                        assert(prior.staged(before, i, j));
                    }
                    assert forall|i: int| 0 <= i < x + 1 implies
                        #[trigger] self.staged(before, i, y as int) by {
                        if i < x {
                            assert(prior.staged(before, i, y as int));
                        }
                    }
                }
                x += 1;
            }
            y += 1;
        }
        // tick each cell
        let mut y: usize = 0;
        while y < size
            invariant
                y <= size,
                valid_grid(before),
                before.len() == size,
                self.has_size(size as int),
                forall|i: int, j: int|
                    0 <= j < y && 0 <= i < size ==> #[trigger] self.committed(before, i, j),
                forall|i: int, j: int|
                    y <= j < size && 0 <= i < size ==> #[trigger] self.staged(before, i, j),
            decreases size - y,
        {
            let mut x: usize = 0;
            while x < size
                invariant
                    y < size,
                    x <= size,
                    valid_grid(before),
                    before.len() == size,
                    self.has_size(size as int),
                    forall|i: int, j: int|
                        0 <= j < y && 0 <= i < size ==> #[trigger] self.committed(before, i, j),
                    forall|i: int| 0 <= i < x ==> #[trigger] self.committed(before, i, y as int),
                    forall|i: int| x <= i < size ==> #[trigger] self.staged(before, i, y as int),
                    forall|i: int, j: int|
                        y < j < size && 0 <= i < size ==> #[trigger] self.staged(before, i, j),
                decreases size - x,
            {
                let ghost prior = *self;
                self.matrix[y][x].tick();
                proof {
                    assert(self.has_size(size as int));
                    assert forall|i: int, j: int| 0 <= j < size && 0 <= i < size && !(i == x && j
                        == y) implies #[trigger] self.cell(i, j) == prior.cell(i, j) by {}
                    assert(self.committed(before, x as int, y as int)) by {
                        assert(prior.staged(before, x as int, y as int));
                    }
                    assert forall|i: int, j: int| 0 <= j < y && 0 <= i < size implies
                        #[trigger] self.committed(before, i, j) by {
                        assert(prior.committed(before, i, j));
                    }
                    assert forall|i: int, j: int| y < j < size && 0 <= i < size implies
                        #[trigger] self.staged(before, i, j) by {
                        assert(prior.staged(before, i, j));
                    }
                    assert forall|i: int| 0 <= i < x + 1 implies
                        #[trigger] self.committed(before, i, y as int) by {
                        if i < x {
                            assert(prior.committed(before, i, y as int));
                        }
                    }
                    assert forall|i: int| x + 1 <= i < size implies
                        #[trigger] self.staged(before, i, y as int) by {
                        assert(prior.staged(before, i, y as int));
                    }
                }
                x += 1;
            }
            y += 1;
        }
        proof {
            let after = next_generation(before);
            assert forall|j: int| 0 <= j < size implies #[trigger] self@[j] =~= after[j] by {
                assert(before[j].len() == size);
                assert forall|i: int| 0 <= i < size implies #[trigger] self@[j][i]
                    == after[j][i] by {
                    assert(self.committed(before, i, j));
                }
            }
            assert(self@ =~= after);
            if all_dead(before) {
                lemma_dead_grid_stays_dead(before);
            }
            assert forall|i: int, j: int| in_bounds(self@, i, j) implies
                (#[trigger] self@[j][i]).neighbors <= 8 by {
                assert(self.committed(before, i, j));
                lemma_neighbors_at_most_eight(before, i, j);
            }
        }
    }

    /// Sets the state of the cell at `(x, y)`. Its cached count and every
    /// other cell stay as they are.
    fn set_state(&mut self, x: usize, y: usize, state: CellState)
        requires
            old(self).wf(),
            x < old(self)@.len(),
            y < old(self)@.len(),
        ensures
            final(self).wf(),
            final(self)@ == with_state(old(self)@, x as int, y as int, state == CellState::Alive),
    {
        let ghost before = self@;
        let ghost after = with_state(before, x as int, y as int, state == CellState::Alive);
        assert forall|j: int| 0 <= j < before.len() implies (#[trigger] self.matrix@[j])@.len()
            == before.len() by {
            assert(before[j].len() == before.len());
        }
        let ghost prior = *self;
        self.matrix[y][x].current_state = state;
        proof {
            assert forall|j: int| 0 <= j < before.len() implies
                #[trigger] self@[j] =~= after[j] by {
                assert(prior.matrix@[j]@.len() == before.len());
            }
            assert(self@ =~= after);
            assert forall|i: int, j: int| in_bounds(after, i, j) implies
                (#[trigger] after[j][i]).neighbors <= 8 by {
                assert(before[j].len() == before.len());
                assert(before[j][i].neighbors <= 8);
            }
        }
    }

    /// Flips the cell at `(x, y)` between alive and dead. Nothing else changes:
    /// no rule is applied and no count is refreshed.
    pub fn toggle_cell(&mut self, x: usize, y: usize)
        requires
            old(self).wf(),
            x < old(self)@.len(),
            y < old(self)@.len(),
        ensures
            final(self).wf(),
            final(self)@ == toggled(old(self)@, x as int, y as int),
    {
        if self.cell_at_index(x, y).is_alive() {
            self.set_state(x, y, CellState::Dead);
        } else {
            self.set_state(x, y, CellState::Alive);
        }
    }

    /// Sets every cell dead. Cached counts stay as they are.
    pub fn clear(&mut self)
        requires
            old(self).wf(),
        ensures
            final(self).wf(),
            final(self)@ == cleared(old(self)@),
    {
        let size = self.size();
        let ghost before = self@;
        assert(self@ =~~= cleared_before(before, 0, 0));
        for y in 0..size
            invariant
                valid_grid(before),
                before.len() == size,
                self.wf(),
                self@ == cleared_before(before, 0, y as int),
        {
            for x in 0..size
                invariant
                    valid_grid(before),
                    before.len() == size,
                    y < size,
                    self.wf(),
                    self@ == cleared_before(before, x as int, y as int),
            {
                self.set_state(x, y, CellState::Dead);
                assert(self@ =~~= cleared_before(before, x + 1, y as int));
            }
            assert(self@ =~~= cleared_before(before, 0, y + 1));
        }
        assert(self@ =~~= cleared(before));
    }

    /// Writes a glider into the box of three by three cells whose top left
    /// corner is `(x, y)`: its five cells become alive, all others stay.
    pub fn place_glider(&mut self, x: usize, y: usize)
        requires
            old(self).wf(),
            x + 3 <= old(self)@.len(),
            y + 3 <= old(self)@.len(),
        ensures
            final(self).wf(),
            final(self)@ == with_glider(old(self)@, x as int, y as int),
    {
        let ghost before = self@;
        proof {
            self.lemma_size_fits();
        }
        self.set_state(x, y + 1, CellState::Alive);
        self.set_state(x + 1, y + 2, CellState::Alive);
        self.set_state(x + 2, y, CellState::Alive);
        self.set_state(x + 2, y + 1, CellState::Alive);
        self.set_state(x + 2, y + 2, CellState::Alive);
        assert(self@ =~~= with_glider(before, x as int, y as int)) by {
            assert forall|j: int| 0 <= j < before.len() implies (#[trigger] before[j]).len()
                == before.len() by {}
        }
    }

    /// Draws the offsets of a glider to drop: one per axis, each from
    /// `0..glider_offsets(size)`.
    pub fn draw_glider_offsets(&self) -> (drop: (usize, usize))
        requires
            self.wf(),
            self@.len() >= 5,
        ensures
            glider_drop_fits(self@.len() as int, (drop.0 as int, drop.1 as int)),
    {
        let size = self.size();
        let spread = (size / 4) * 3;
        let offsets = if spread <= size - 4 { spread } else { size - 4 };
        let x_offset = random_below(offsets);
        let y_offset = random_below(offsets);
        (x_offset, y_offset)
    }

    /// Drops a glider at a random place where it fits: its box starts one
    /// column and two rows beyond the offsets drawn.
    pub fn drop_glider(&mut self)
        requires
            old(self).wf(),
            old(self)@.len() >= 5,
        ensures
            final(self).wf(),
            exists|drop: (int, int)|
                glider_drop_fits(old(self)@.len() as int, drop) && final(self)@
                    == #[trigger] with_glider(old(self)@, 1 + drop.0, 2 + drop.1),
    {
        let (x_offset, y_offset) = self.draw_glider_offsets();
        proof {
            self.lemma_size_fits();
        }
        self.place_glider(1 + x_offset, 2 + y_offset);
        assert(glider_drop_fits(old(self)@.len() as int, (x_offset as int, y_offset as int)));
    }

    /// The size of a grid is a machine integer.
    proof fn lemma_size_fits(&self)
        ensures
            self@.len() <= usize::MAX,
    {
        assert(self.matrix@.len() == self.matrix.len());
    }

    /// While the stored cells have the states of `before` and counts in range,
    /// the grid is valid and has the population of `before`.
    proof fn lemma_view_of_stored(&self, size: int, before: Grid)
        requires
            self.has_size(size),
            is_square(before),
            before.len() == size,
            forall|i: int, j: int|
                0 <= j < size && 0 <= i < size ==> #[trigger] self.same_state(before, i, j),
            forall|i: int, j: int|
                0 <= j < size && 0 <= i < size ==> (#[trigger] self.cell(i, j)).neighbors <= 8,
        ensures
            self.wf(),
            self@.len() == size,
            same_population(self@, before),
    {
        assert forall|x: int, y: int| in_bounds(self@, x, y) implies
            (#[trigger] self@[y][x]).alive == before[y][x].alive
                && self@[y][x].neighbors <= 8 by {
            assert(self.same_state(before, x, y));
            assert(self.cell(x, y).neighbors <= 8);
        }
        assert forall|y: int| 0 <= y < self@.len() implies (#[trigger] self@[y]).len()
            == before[y].len() by {
            assert(self.matrix@[y]@.len() == size);
        }
    }
}

} // verus!
