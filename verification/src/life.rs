//! The mathematical model of the simulation: grids as sequences of rows,
//! the neighbor count, the survival rule, and one whole-grid generation step.
use vstd::prelude::*;

verus! {

/// `g` is a rectangular grid of exactly `rows` rows, each `cols` cells wide.
pub open spec fn is_grid(g: Seq<Seq<bool>>, rows: int, cols: int) -> bool {
    &&& g.len() == rows
    &&& forall|r: int| 0 <= r < rows ==> (#[trigger] g[r]).len() == cols
}

/// The all-dead grid of the given dimensions.
pub open spec fn dead_grid(rows: int, cols: int) -> Seq<Seq<bool>> {
    Seq::new(rows as nat, |r: int| Seq::new(cols as nat, |c: int| false))
}

/// Every cell of `g` is dead.
pub open spec fn all_dead(g: Seq<Seq<bool>>) -> bool {
    forall|r: int, c: int| !alive_at(g, r, c)
}

/// Cell `(r, c)` lies inside the grid and is alive. Positions outside the
/// grid never qualify, which is what clips the neighborhood at the edges.
pub open spec fn alive_at(g: Seq<Seq<bool>>, r: int, c: int) -> bool {
    &&& 0 <= r < g.len()
    &&& 0 <= c < g[r].len()
    &&& g[r][c]
}

pub open spec fn count_one(b: bool) -> int {
    if b {
        1
    } else {
        0
    }
}

/// Number of live cells among the up-to-8 grid-adjacent cells of `(i, j)`
/// (the Moore neighborhood), with positions outside the grid not counted.
pub open spec fn neighbor_count(g: Seq<Seq<bool>>, i: int, j: int) -> int {
    count_one(alive_at(g, i - 1, j - 1)) + count_one(alive_at(g, i - 1, j)) + count_one(
        alive_at(g, i - 1, j + 1),
    ) + count_one(alive_at(g, i, j - 1)) + count_one(alive_at(g, i, j + 1)) + count_one(
        alive_at(g, i + 1, j - 1),
    ) + count_one(alive_at(g, i + 1, j)) + count_one(alive_at(g, i + 1, j + 1))
}

/// The survival rule: a live cell stays alive with 2 or 3 live neighbors,
/// a dead cell becomes alive with exactly 3, and every other cell is dead
/// in the next generation.
pub open spec fn life_rule(alive: bool, neighbors: int) -> bool {
    if alive {
        2 <= neighbors <= 3
    } else {
        neighbors == 3
    }
}

/// One generation of the whole grid: every cell's next state is a function
/// of the previous grid alone.
pub open spec fn grid_step(g: Seq<Seq<bool>>) -> Seq<Seq<bool>> {
    Seq::new(
        g.len(),
        |r: int|
            Seq::new(g[r].len(), |c: int| life_rule(g[r][c], neighbor_count(g, r, c))),
    )
}

/// The placement of a box of `height` x `width` cells anchored at `(i, j)`
/// lies entirely within a grid of `rows` x `cols` cells.
pub open spec fn pattern_fits(
    i: int,
    j: int,
    height: int,
    width: int,
    rows: int,
    cols: int,
) -> bool {
    &&& i + height <= rows
    &&& j + width <= cols
}

/// `cur` has the same shape as `prev` and agrees with it on every cell
/// outside the `height` x `width` box anchored at `(i, j)`.
pub open spec fn unchanged_outside_box(
    prev: Seq<Seq<bool>>,
    cur: Seq<Seq<bool>>,
    i: int,
    j: int,
    height: int,
    width: int,
) -> bool {
    &&& cur.len() == prev.len()
    &&& forall|r: int| 0 <= r < prev.len() ==> (#[trigger] cur[r]).len() == prev[r].len()
    &&& forall|r: int, c: int|
        0 <= r < prev.len() && 0 <= c < prev[r].len() && !(i <= r < i + height && j <= c < j
            + width) ==> #[trigger] cur[r][c] == prev[r][c]
}

/// `cur` is `prev` with exactly the cells whose offset from `(i, j)`
/// satisfies `marks` set alive; every other cell keeps its prior state.
pub open spec fn stamped(
    prev: Seq<Seq<bool>>,
    cur: Seq<Seq<bool>>,
    i: int,
    j: int,
    marks: spec_fn(int, int) -> bool,
) -> bool {
    &&& cur.len() == prev.len()
    &&& forall|r: int| 0 <= r < prev.len() ==> (#[trigger] cur[r]).len() == prev[r].len()
    &&& forall|r: int, c: int|
        0 <= r < prev.len() && 0 <= c < prev[r].len() ==> #[trigger] cur[r][c] == (prev[r][c]
            || marks(r - i, c - j))
}

/// The neighbor count never exceeds 8, and cells beyond the grid's edge
/// contribute nothing: on the border rows and columns at most 5 positions
/// can count, and in a corner at most 3.
pub proof fn lemma_neighbor_count_bounds(g: Seq<Seq<bool>>, i: int, j: int)
    ensures
        0 <= neighbor_count(g, i, j) <= 8,
        i == 0 ==> neighbor_count(g, i, j) <= 5,
        j == 0 ==> neighbor_count(g, i, j) <= 5,
        i == g.len() - 1 ==> neighbor_count(g, i, j) <= 5,
        i == 0 && j == 0 ==> neighbor_count(g, i, j) <= 3,
{
}

/// A grid keeps its shape across a generation step.
pub proof fn lemma_grid_step_is_grid(g: Seq<Seq<bool>>, rows: int, cols: int)
    requires
        is_grid(g, rows, cols),
    ensures
        is_grid(grid_step(g), rows, cols),
{
}

/// Stability of the empty state: one generation step leaves an all-dead
/// grid all dead, and in fact leaves it unchanged.
pub proof fn lemma_step_all_dead(g: Seq<Seq<bool>>)
    requires
        all_dead(g),
    ensures
        grid_step(g) == g,
        all_dead(grid_step(g)),
{
    assert forall|r: int, c: int| 0 <= r < g.len() && 0 <= c < g[r].len() implies grid_step(
        g,
    )[r][c] == g[r][c] by {
        assert(!alive_at(g, r, c));
        assert(!g[r][c]);
    }
    assert(grid_step(g) =~~= g);
}

} // verus!
