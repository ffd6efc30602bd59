//! What holds of every grid: the rule cell by cell, the locality of an edit,
//! and what the neighbour count counts.

use crate::life::{
    alive_at, all_dead, in_bounds, live_neighbors, next_generation, population_at, toggled, Grid,
};
use vstd::prelude::*;

verus! {

/// A cell with exactly three live neighbours is alive in the next generation,
/// whatever it was before.
pub proof fn lemma_three_neighbors_give_life(g: Grid, x: int, y: int)
    requires
        in_bounds(g, x, y),
        live_neighbors(g, x, y) == 3,
    ensures
        next_generation(g)[y][x].alive,
{
}

/// A live cell with no or one live neighbour is dead in the next generation.
pub proof fn lemma_lonely_cell_dies(g: Grid, x: int, y: int)
    requires
        in_bounds(g, x, y),
        g[y][x].alive,
        live_neighbors(g, x, y) <= 1,
    ensures
        !next_generation(g)[y][x].alive,
{
}

/// A live cell with more than three live neighbours is dead in the next
/// generation.
pub proof fn lemma_crowded_cell_dies(g: Grid, x: int, y: int)
    requires
        in_bounds(g, x, y),
        g[y][x].alive,
        live_neighbors(g, x, y) > 3,
    ensures
        !next_generation(g)[y][x].alive,
{
}

/// A grid without live cells stays without live cells.
pub proof fn lemma_dead_grid_stays_dead(g: Grid)
    requires
        all_dead(g),
    ensures
        all_dead(next_generation(g)),
        next_generation(g).len() == g.len(),
{
    assert forall|x: int, y: int| in_bounds(next_generation(g), x, y) implies !(
    #[trigger] next_generation(g)[y][x]).alive by {
        assert(in_bounds(g, x, y));
        assert forall|i: int, j: int| population_at(g, i, j) == 0 by {
            if in_bounds(g, i, j) {
                assert(!g[j][i].alive);
            }
        }
    }
}

/// The position `(i, j)` is one of the eight around `(x, y)`.
pub open spec fn touches(x: int, y: int, i: int, j: int) -> bool {
    &&& x - 1 <= i <= x + 1
    &&& y - 1 <= j <= y + 1
    &&& !(i == x && j == y)
}

/// The live cells of the grid that touch `(x, y)`.
pub open spec fn live_neighbor_set(g: Grid, x: int, y: int) -> Set<(int, int)> {
    Set::new(|p: (int, int)| touches(x, y, p.0, p.1) && alive_at(g, p.0, p.1))
}

/// `s`, and `(i, j)` too if a live cell of the grid is there.
spec fn and_if_alive(s: Set<(int, int)>, g: Grid, i: int, j: int) -> Set<(int, int)> {
    if alive_at(g, i, j) {
        s.insert((i, j))
    } else {
        s
    }
}

/// The neighbour count of a cell is the number of live cells of the grid among
/// the eight positions around it: the cell itself is not among them, and a
/// position off the grid holds no cell.
pub proof fn lemma_count_is_number_of_live_neighbors(g: Grid, x: int, y: int)
    ensures
        live_neighbor_set(g, x, y).finite(),
        live_neighbors(g, x, y) == live_neighbor_set(g, x, y).len(),
        !live_neighbor_set(g, x, y).contains((x, y)),
        forall|p: (int, int)| #[trigger]
            live_neighbor_set(g, x, y).contains(p) ==> in_bounds(g, p.0, p.1),
{
    let s0 = Set::<(int, int)>::empty();
    let s1 = and_if_alive(s0, g, x - 1, y - 1);
    let s2 = and_if_alive(s1, g, x, y - 1);
    let s3 = and_if_alive(s2, g, x + 1, y - 1);
    let s4 = and_if_alive(s3, g, x - 1, y);
    let s5 = and_if_alive(s4, g, x + 1, y);
    let s6 = and_if_alive(s5, g, x - 1, y + 1);
    let s7 = and_if_alive(s6, g, x, y + 1);
    let s8 = and_if_alive(s7, g, x + 1, y + 1);
    assert(s1.finite() && s1.len() == population_at(g, x - 1, y - 1));
    assert(s2.finite() && s2.len() == s1.len() + population_at(g, x, y - 1));
    assert(s3.finite() && s3.len() == s2.len() + population_at(g, x + 1, y - 1));
    assert(s4.finite() && s4.len() == s3.len() + population_at(g, x - 1, y));
    assert(s5.finite() && s5.len() == s4.len() + population_at(g, x + 1, y));
    assert(s6.finite() && s6.len() == s5.len() + population_at(g, x - 1, y + 1));
    assert(s7.finite() && s7.len() == s6.len() + population_at(g, x, y + 1));
    assert(s8.finite() && s8.len() == s7.len() + population_at(g, x + 1, y + 1));
    assert(s8 =~= live_neighbor_set(g, x, y));
}

/// A cell's own state has no part in its neighbour count.
pub proof fn lemma_own_state_is_not_counted(g: Grid, x: int, y: int)
    requires
        in_bounds(g, x, y),
    ensures
        live_neighbors(toggled(g, x, y), x, y) == live_neighbors(g, x, y),
{
    let t = toggled(g, x, y);
    assert forall|i: int, j: int| !(i == x && j == y) implies population_at(t, i, j)
        == population_at(g, i, j) by {
        lemma_toggle_elsewhere(g, x, y, i, j);
    }
}

/// Toggling `(x, y)` leaves the shape of the grid and every other cell as
/// they were.
pub proof fn lemma_toggle_elsewhere(g: Grid, x: int, y: int, i: int, j: int)
    requires
        in_bounds(g, x, y),
        !(i == x && j == y),
    ensures
        in_bounds(toggled(g, x, y), i, j) == in_bounds(g, i, j),
        in_bounds(g, i, j) ==> toggled(g, x, y)[j][i] == g[j][i],
        population_at(toggled(g, x, y), i, j) == population_at(g, i, j),
{
}

/// Toggling a cell flips that cell and no other.
pub proof fn lemma_toggle_flips_one_cell(g: Grid, x: int, y: int)
    requires
        in_bounds(g, x, y),
    ensures
        toggled(g, x, y).len() == g.len(),
        forall|j: int| 0 <= j < g.len() ==> (#[trigger] toggled(g, x, y)[j]).len() == g[j].len(),
        toggled(g, x, y)[y][x].alive == !g[y][x].alive,
        toggled(g, x, y)[y][x].neighbors == g[y][x].neighbors,
        forall|i: int, j: int|
            in_bounds(g, i, j) && !(i == x && j == y) ==> #[trigger] toggled(g, x, y)[j][i]
                == g[j][i],
{
}

/// An edit is local: after toggling `(x, y)`, every cell that does not touch
/// it, and is not it, fares in the next generation as it would have without
/// the edit.
pub proof fn lemma_toggle_is_local(g: Grid, x: int, y: int, i: int, j: int)
    requires
        in_bounds(g, x, y),
        in_bounds(g, i, j),
        !touches(x, y, i, j),
        !(i == x && j == y),
    ensures
        next_generation(toggled(g, x, y))[j][i] == next_generation(g)[j][i],
{
    let t = toggled(g, x, y);
    lemma_toggle_flips_one_cell(g, x, y);
    assert forall|a: int, b: int| touches(i, j, a, b) implies population_at(t, a, b)
        == population_at(g, a, b) by {
        lemma_toggle_elsewhere(g, x, y, a, b);
    }
    assert(touches(i, j, i - 1, j - 1) && touches(i, j, i, j - 1) && touches(i, j, i + 1, j - 1));
    assert(touches(i, j, i - 1, j) && touches(i, j, i + 1, j));
    assert(touches(i, j, i - 1, j + 1) && touches(i, j, i, j + 1) && touches(i, j, i + 1, j + 1));
    assert(in_bounds(t, i, j));
}

/// The cells that touch a toggled cell see their count move by one: up when
/// the cell came alive, down when it died.
pub proof fn lemma_toggle_moves_adjacent_counts(g: Grid, x: int, y: int, i: int, j: int)
    requires
        in_bounds(g, x, y),
        touches(x, y, i, j),
    ensures
        live_neighbors(toggled(g, x, y), i, j) == live_neighbors(g, i, j) + (if g[y][x].alive {
            -1int
        } else {
            1int
        }),
{
    let t = toggled(g, x, y);
    assert forall|a: int, b: int| !(a == x && b == y) implies population_at(t, a, b)
        == population_at(g, a, b) by {
        lemma_toggle_elsewhere(g, x, y, a, b);
    }
    assert(in_bounds(t, x, y));
    assert(t[y][x].alive == !g[y][x].alive);
}

} // verus!
