//! Independence of far-apart configurations: two sets of live cells that
//! never come within each other's neighbor-influence radius evolve exactly
//! as they would alone, and the evolution of their union is the union of
//! their evolutions.
use vstd::prelude::*;

use crate::life::alive_at;
use crate::life::grid_step;
use crate::life::is_grid;

verus! {

/// Some live cell of `g` lies within Chebyshev distance 1 of `(i, j)`,
/// that is, at `(i, j)` itself or in its Moore neighborhood.
pub open spec fn near_live(g: Seq<Seq<bool>>, i: int, j: int) -> bool {
    ||| alive_at(g, i - 1, j - 1)
    ||| alive_at(g, i - 1, j)
    ||| alive_at(g, i - 1, j + 1)
    ||| alive_at(g, i, j - 1)
    ||| alive_at(g, i, j)
    ||| alive_at(g, i, j + 1)
    ||| alive_at(g, i + 1, j - 1)
    ||| alive_at(g, i + 1, j)
    ||| alive_at(g, i + 1, j + 1)
}

/// No position is under the influence of live cells of both grids: nowhere
/// do the two configurations' neighbor-influence radii touch.
pub open spec fn independent(g1: Seq<Seq<bool>>, g2: Seq<Seq<bool>>) -> bool {
    forall|i: int, j: int|
        #![trigger near_live(g1, i, j), near_live(g2, i, j)]
        !(near_live(g1, i, j) && near_live(g2, i, j))
}

/// The cell-wise union of two same-shaped grids: a cell is alive when it is
/// alive in either.
pub open spec fn union_grid(g1: Seq<Seq<bool>>, g2: Seq<Seq<bool>>) -> Seq<Seq<bool>> {
    Seq::new(
        g1.len(),
        |r: int| Seq::new(g1[r].len(), |c: int| g1[r][c] || alive_at(g2, r, c)),
    )
}

/// `n` generation steps applied to `g`.
pub open spec fn iter_step(g: Seq<Seq<bool>>, n: nat) -> Seq<Seq<bool>>
    decreases n,
{
    if n == 0 {
        g
    } else {
        grid_step(iter_step(g, (n - 1) as nat))
    }
}

/// Two placements in sequence on an all-dead grid leave the union of what
/// each placement alone would leave: `first` is the stamp of `marks1` on
/// the dead grid `base`, `second` likewise for `marks2`, and `combined` is
/// the stamp of `marks2` on top of `first`.
pub proof fn lemma_sequential_placement_is_union(
    base: Seq<Seq<bool>>,
    first: Seq<Seq<bool>>,
    second: Seq<Seq<bool>>,
    combined: Seq<Seq<bool>>,
    i1: int,
    j1: int,
    marks1: spec_fn(int, int) -> bool,
    i2: int,
    j2: int,
    marks2: spec_fn(int, int) -> bool,
    rows: int,
    cols: int,
)
    requires
        is_grid(base, rows, cols),
        crate::life::all_dead(base),
        crate::life::stamped(base, first, i1, j1, marks1),
        crate::life::stamped(base, second, i2, j2, marks2),
        crate::life::stamped(first, combined, i2, j2, marks2),
    ensures
        combined == union_grid(first, second),
{
    assert forall|r: int, c: int| 0 <= r < rows && 0 <= c < cols implies combined[r][c]
        == union_grid(first, second)[r][c] by {
        assert(!alive_at(base, r, c));
        assert(!base[r][c]);
        assert(first[r].len() == cols);
        assert(second[r].len() == cols);
        assert(union_grid(first, second)[r][c] == (first[r][c] || alive_at(second, r, c)));
    }
    assert(combined =~~= union_grid(first, second));
}

/// A cell with no live cell of `g` within distance 1 is itself dead and
/// counts no live neighbors.
proof fn lemma_quiet_cell(g: Seq<Seq<bool>>, i: int, j: int)
    requires
        !near_live(g, i, j),
    ensures
        crate::life::neighbor_count(g, i, j) == 0,
        !alive_at(g, i, j),
{
}

/// The cell-wise union of two same-shaped grids keeps their shape, and a
/// position is alive in the union exactly when it is alive in either grid.
proof fn lemma_union_alive(g1: Seq<Seq<bool>>, g2: Seq<Seq<bool>>, rows: int, cols: int)
    requires
        is_grid(g1, rows, cols),
        is_grid(g2, rows, cols),
    ensures
        is_grid(union_grid(g1, g2), rows, cols),
        forall|r: int, c: int|
            #[trigger] alive_at(union_grid(g1, g2), r, c) == (alive_at(g1, r, c) || alive_at(
                g2,
                r,
                c,
            )),
{
    let u = union_grid(g1, g2);
    assert forall|r: int, c: int|
        #[trigger] alive_at(u, r, c) == (alive_at(g1, r, c) || alive_at(g2, r, c)) by {
        if 0 <= r < rows && 0 <= c < cols {
            assert(u[r].len() == cols);
            assert(u[r][c] == (g1[r][c] || alive_at(g2, r, c)));
        }
    }
}

/// One generation of the union of two configurations that are nowhere
/// under each other's influence is the union of one generation of each.
pub proof fn lemma_step_union(g1: Seq<Seq<bool>>, g2: Seq<Seq<bool>>, rows: int, cols: int)
    requires
        is_grid(g1, rows, cols),
        is_grid(g2, rows, cols),
        independent(g1, g2),
    ensures
        grid_step(union_grid(g1, g2)) == union_grid(grid_step(g1), grid_step(g2)),
{
    let u = union_grid(g1, g2);
    let s1 = grid_step(g1);
    let s2 = grid_step(g2);
    lemma_union_alive(g1, g2, rows, cols);
    crate::life::lemma_grid_step_is_grid(g1, rows, cols);
    crate::life::lemma_grid_step_is_grid(g2, rows, cols);
    crate::life::lemma_grid_step_is_grid(u, rows, cols);
    assert forall|r: int, c: int| 0 <= r < rows && 0 <= c < cols implies grid_step(u)[r][c]
        == union_grid(s1, s2)[r][c] by {
        assert(!(near_live(g1, r, c) && near_live(g2, r, c)));
        assert(union_grid(s1, s2)[r][c] == (s1[r][c] || alive_at(s2, r, c)));
        if !near_live(g2, r, c) {
            lemma_quiet_cell(g2, r, c);
            assert(crate::life::neighbor_count(u, r, c) == crate::life::neighbor_count(
                g1,
                r,
                c,
            ));
            assert(u[r][c] == g1[r][c]);
            assert(!s2[r][c]);
        } else {
            lemma_quiet_cell(g1, r, c);
            assert(crate::life::neighbor_count(u, r, c) == crate::life::neighbor_count(
                g2,
                r,
                c,
            ));
            assert(u[r][c] == (g1[r][c] || g2[r][c]));
            assert(!g1[r][c]);
            assert(!s1[r][c]);
        }
    }
    assert(grid_step(u) =~~= union_grid(s1, s2));
}

/// A grid keeps its shape across any number of generation steps.
pub proof fn lemma_iter_step_is_grid(g: Seq<Seq<bool>>, rows: int, cols: int, n: nat)
    requires
        is_grid(g, rows, cols),
    ensures
        is_grid(iter_step(g, n), rows, cols),
    decreases n,
{
    if n > 0 {
        lemma_iter_step_is_grid(g, rows, cols, (n - 1) as nat);
        crate::life::lemma_grid_step_is_grid(iter_step(g, (n - 1) as nat), rows, cols);
    }
}

/// Independent evolution: as long as the two configurations stay outside
/// each other's neighbor-influence radius at every generation up to `n`,
/// advancing their union `n` generations equals advancing each alone on an
/// otherwise-empty grid of the same size and taking the union of the live
/// cells.
pub proof fn lemma_independent_evolution(
    g1: Seq<Seq<bool>>,
    g2: Seq<Seq<bool>>,
    rows: int,
    cols: int,
    n: nat,
)
    requires
        is_grid(g1, rows, cols),
        is_grid(g2, rows, cols),
        forall|k: nat| k < n ==> independent(#[trigger] iter_step(g1, k), iter_step(g2, k)),
    ensures
        iter_step(union_grid(g1, g2), n) == union_grid(iter_step(g1, n), iter_step(g2, n)),
    decreases n,
{
    if n > 0 {
        let m = (n - 1) as nat;
        lemma_independent_evolution(g1, g2, rows, cols, m);
        lemma_iter_step_is_grid(g1, rows, cols, m);
        lemma_iter_step_is_grid(g2, rows, cols, m);
        assert(independent(iter_step(g1, m), iter_step(g2, m)));
        lemma_step_union(iter_step(g1, m), iter_step(g2, m), rows, cols);
    }
}

} // verus!
