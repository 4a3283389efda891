//! The board: two same-shaped grids whose roles as the read and the write
//! grid swap with the parity of the generation counter, the generation
//! advance, and the pattern placement with its bounds check.
use vstd::prelude::*;
use vstd::string::StringExecFns;

use crate::grid::CellGrid;
use crate::grid::grid_seq;
use crate::life::dead_grid;
use crate::life::grid_step;
use crate::life::is_grid;
use crate::life::life_rule;
use crate::life::neighbor_count;
use crate::life::pattern_fits;
use crate::output::render_chars;
use crate::output::row_chars;
use crate::patterns::GOLPattern;

verus! {

/// The placement of a pattern was rejected because its bounding box,
/// anchored at the given position, would extend past the grid's row or
/// column limit. The grid is left entirely unchanged.
#[derive(Debug, PartialEq, Eq, Structural, Clone, Copy)]
pub struct OutOfBounds;

/// Represents a 2D Conway's Game of Life board.
///
/// The board owns two same-shaped grids. The one the parity of the
/// generation counter selects is the current grid, which every read goes
/// to; the other is overwritten as a whole on every generation advance,
/// after which the counter flips the roles.
pub struct Board {
    a: CellGrid,
    b: CellGrid,
    generation: i32,
}

impl Board {
    /// The current generation's cell states, row by row.
    pub closed spec fn cells(&self) -> Seq<Seq<bool>> {
        if self.generation as int % 2 == 0 {
            grid_seq(self.a)
        } else {
            grid_seq(self.b)
        }
    }

    /// The value of the generation counter.
    pub closed spec fn spec_generation(&self) -> int {
        self.generation as int
    }

    /// Number of rows of the board.
    pub open spec fn spec_rows(&self) -> int {
        self.cells().len() as int
    }

    /// Number of columns of the board.
    pub open spec fn spec_columns(&self) -> int {
        self.cells()[0].len() as int
    }

    /// Well-formedness: both grids are rectangular with the board's fixed
    /// positive dimensions, and the generation counter is not negative.
    pub closed spec fn wf(&self) -> bool {
        &&& 1 <= grid_seq(self.a).len() <= usize::MAX
        &&& 1 <= grid_seq(self.a)[0].len() <= usize::MAX
        &&& is_grid(
            grid_seq(self.a),
            grid_seq(self.a).len() as int,
            grid_seq(self.a)[0].len() as int,
        )
        &&& is_grid(
            grid_seq(self.b),
            grid_seq(self.a).len() as int,
            grid_seq(self.a)[0].len() as int,
        )
        &&& 0 <= self.generation
    }

    /// A well-formed board's current grid is rectangular with the board's
    /// dimensions, which are positive and fit the machine.
    pub proof fn lemma_wf_cells_grid(&self)
        requires
            self.wf(),
        ensures
            is_grid(self.cells(), self.spec_rows(), self.spec_columns()),
            1 <= self.spec_rows() <= usize::MAX,
            1 <= self.spec_columns() <= usize::MAX,
    {
        assert(grid_seq(self.b).len() == grid_seq(self.a).len());
        assert(grid_seq(self.b)[0].len() == grid_seq(self.a)[0].len());
    }

    /// Creates a new Board with the given number of rows and columns; every
    /// cell starts dead and the generation counter starts at 0.
    pub fn new(dims: (usize, usize)) -> (board: Board)
        requires
            1 <= dims.0,
            1 <= dims.1,
            dims.0 * dims.1 <= isize::MAX,
        ensures
            board.wf(),
            board.cells() == dead_grid(dims.0 as int, dims.1 as int),
            board.spec_rows() == dims.0,
            board.spec_columns() == dims.1,
            board.spec_generation() == 0,
    {
        proof {
            assert(dims.0 <= isize::MAX && dims.1 <= isize::MAX) by (nonlinear_arith)
                requires
                    1 <= dims.0,
                    1 <= dims.1,
                    dims.0 * dims.1 <= isize::MAX,
            ;
        }
        let board = Board {
            a: CellGrid::new(dims.0, dims.1),
            b: CellGrid::new(dims.0, dims.1),
            generation: 0,
        };
        proof {
            let d = dead_grid(dims.0 as int, dims.1 as int);
            assert(is_grid(d, dims.0 as int, dims.1 as int));
            assert(d[0].len() == dims.1);
        }
        board
    }

    /// Updates the cells of the board to the next generation.
    ///
    /// Every cell's next state is computed from the current grid alone and
    /// written into the other grid; once the whole grid is written the
    /// generation counter moves up by one, which flips which grid is
    /// current.
    pub fn next_generation(&mut self)
        requires
            old(self).wf(),
            old(self).spec_generation() < i32::MAX,
        ensures
            final(self).wf(),
            final(self).cells() == grid_step(old(self).cells()),
            final(self).spec_rows() == old(self).spec_rows(),
            final(self).spec_columns() == old(self).spec_columns(),
            final(self).spec_generation() == old(self).spec_generation() + 1,
    {
        if self.generation % 2 == 0 {
            compute_into(&self.a, &mut self.b);
        } else {
            compute_into(&self.b, &mut self.a);
        }
        proof {
            crate::life::lemma_grid_step_is_grid(
                old(self).cells(),
                old(self).spec_rows(),
                old(self).spec_columns(),
            );
        }
        self.generation = self.generation + 1;
    }

    /// Places an instance of the given Game of Life pattern onto the board
    /// at the specified (row, column) position.
    ///
    /// The placement is all-or-nothing: it is rejected with `OutOfBounds`
    /// unless the pattern's whole bounding box lies on the board, and in
    /// that case the board is left entirely unchanged. On success only
    /// cells inside the box may change, as the pattern's own placement
    /// relation states, and the generation counter does not move.
    pub fn place_pattern<T: GOLPattern>(&mut self, pattern: T, i: usize, j: usize) -> (result:
        Result<(), OutOfBounds>)
        requires
            old(self).wf(),
        ensures
            final(self).wf(),
            final(self).spec_generation() == old(self).spec_generation(),
            final(self).spec_rows() == old(self).spec_rows(),
            final(self).spec_columns() == old(self).spec_columns(),
            match result {
                Ok(()) => {
                    &&& pattern_fits(
                        i as int,
                        j as int,
                        pattern.spec_height(),
                        pattern.spec_width(),
                        old(self).spec_rows(),
                        old(self).spec_columns(),
                    )
                    &&& pattern.place_spec(old(self).cells(), i as int, j as int, final(self).cells())
                    &&& crate::life::unchanged_outside_box(
                        old(self).cells(),
                        final(self).cells(),
                        i as int,
                        j as int,
                        pattern.spec_height(),
                        pattern.spec_width(),
                    )
                },
                Err(e) => {
                    &&& e == OutOfBounds
                    &&& !pattern_fits(
                        i as int,
                        j as int,
                        pattern.spec_height(),
                        pattern.spec_width(),
                        old(self).spec_rows(),
                        old(self).spec_columns(),
                    )
                    &&& *final(self) == *old(self)
                },
            },
    {
        if self.generation % 2 == 0 {
            if !check_fits(&self.a, &pattern, i, j) {
                return Err(OutOfBounds);
            }
            pattern.place(&mut self.a, i, j);
        } else {
            if !check_fits(&self.b, &pattern, i, j) {
                return Err(OutOfBounds);
            }
            pattern.place(&mut self.b, i, j);
        }
        Ok(())
    }

    /// Returns a read-only copy of the current grid: one vector per row,
    /// one boolean per cell, exactly the state the most recent generation
    /// advance (or the placements made so far) produced.
    pub fn snapshot(&self) -> (view: Vec<Vec<bool>>)
        requires
            self.wf(),
        ensures
            view@.len() == self.spec_rows(),
            forall|r: int|
                0 <= r < self.spec_rows() ==> (#[trigger] view@[r])@ == self.cells()[r],
    {
        let read = if self.generation % 2 == 0 {
            &self.a
        } else {
            &self.b
        };
        let ghost g = self.cells();
        let (rows, columns) = read.dims();
        let mut view: Vec<Vec<bool>> = Vec::new();
        let mut i: usize = 0;
        while i < rows
            invariant
                i <= rows,
                rows == g.len(),
                is_grid(g, rows as int, columns as int),
                g == grid_seq(*read),
                view@.len() == i,
                forall|r: int| 0 <= r < i ==> (#[trigger] view@[r])@ == g[r],
            decreases rows - i,
        {
            let mut row: Vec<bool> = Vec::new();
            let mut c: usize = 0;
            while c < columns
                invariant
                    i < rows,
                    c <= columns,
                    rows == g.len(),
                    is_grid(g, rows as int, columns as int),
                    g == grid_seq(*read),
                    row@.len() == c,
                    forall|k: int| 0 <= k < c ==> row@[k] == g[i as int][k],
                decreases columns - c,
            {
                row.push(read.get(i, c));
                c = c + 1;
            }
            proof {
                assert(row@ =~= g[i as int]);
            }
            view.push(row);
            i = i + 1;
        }
        view
    }

    /// The number of generation advances made so far.
    pub fn generation(&self) -> (g: i32)
        ensures
            g as int == self.spec_generation(),
    {
        self.generation
    }

    /// Renders the current grid as simple ASCII text, where `x`'s represent
    /// alive cells, and `o`'s represent dead cells, one row per line.
    pub fn render(&self) -> (text: String)
        requires
            self.wf(),
        ensures
            text@ == render_chars(self.cells()),
    {
        let read = if self.generation % 2 == 0 {
            &self.a
        } else {
            &self.b
        };
        let ghost g = self.cells();
        let (rows, columns) = read.dims();
        let mut contents = String::new();
        proof {
            assert(contents@ =~= render_chars(g.take(0)));
        }
        let mut i: usize = 0;
        while i < rows
            invariant
                i <= rows,
                rows == g.len(),
                is_grid(g, rows as int, columns as int),
                g == grid_seq(*read),
                contents@ == render_chars(g.take(i as int)),
            decreases rows - i,
        {
            proof {
                assert(row_chars(g[i as int]).take(0) =~= Seq::<char>::empty());
                assert(contents@ =~= render_chars(g.take(i as int)) + row_chars(
                    g[i as int],
                ).take(0));
            }
            let mut c: usize = 0;
            while c < columns
                invariant
                    i < rows,
                    c <= columns,
                    rows == g.len(),
                    is_grid(g, rows as int, columns as int),
                    g == grid_seq(*read),
                    contents@ == render_chars(g.take(i as int)) + row_chars(g[i as int]).take(
                        c as int,
                    ),
                decreases columns - c,
            {
                if read.get(i, c) {
                    contents.append("x");
                } else {
                    contents.append("o");
                }
                proof {
                    reveal_strlit("x");
                    reveal_strlit("o");
                    assert(contents@ =~= render_chars(g.take(i as int)) + row_chars(
                        g[i as int],
                    ).take(c as int + 1));
                }
                c = c + 1;
            }
            contents.append("\n");
            proof {
                reveal_strlit("\n");
                assert(row_chars(g[i as int]).take(columns as int) =~= row_chars(g[i as int]));
                assert(g.take(i as int + 1).drop_last() =~= g.take(i as int));
                assert(g.take(i as int + 1).last() == g[i as int]);
                assert(contents@ =~= render_chars(g.take(i as int + 1)));
            }
            i = i + 1;
        }
        proof {
            assert(g.take(rows as int) =~= g);
        }
        contents
    }
}

/// Computes the next generation of `read` into `write`, overwriting every
/// cell of `write`; `read` is never written and `write` is never read.
fn compute_into(read: &CellGrid, write: &mut CellGrid)
    requires
        1 <= grid_seq(*read).len() <= usize::MAX,
        1 <= grid_seq(*read)[0].len() <= usize::MAX,
        is_grid(grid_seq(*read), grid_seq(*read).len() as int, grid_seq(*read)[0].len() as int),
        is_grid(
            grid_seq(*old(write)),
            grid_seq(*read).len() as int,
            grid_seq(*read)[0].len() as int,
        ),
    ensures
        grid_seq(*final(write)) == grid_step(grid_seq(*read)),
{
    let ghost g = grid_seq(*read);
    let (rows, columns) = read.dims();
    let mut i: usize = 0;
    while i < rows
        invariant
            i <= rows,
            rows == g.len(),
            is_grid(g, rows as int, columns as int),
            g == grid_seq(*read),
            is_grid(grid_seq(*write), rows as int, columns as int),
            forall|r: int, c: int|
                0 <= r < i && 0 <= c < columns ==> #[trigger] grid_seq(*write)[r][c] == life_rule(
                    g[r][c],
                    neighbor_count(g, r, c),
                ),
        decreases rows - i,
    {
        let mut c: usize = 0;
        while c < columns
            invariant
                i < rows,
                c <= columns,
                rows == g.len(),
                is_grid(g, rows as int, columns as int),
                g == grid_seq(*read),
                is_grid(grid_seq(*write), rows as int, columns as int),
                forall|r: int, c2: int|
                    0 <= r < i && 0 <= c2 < columns ==> #[trigger] grid_seq(*write)[r][c2]
                        == life_rule(g[r][c2], neighbor_count(g, r, c2)),
                forall|c2: int|
                    0 <= c2 < c ==> #[trigger] grid_seq(*write)[i as int][c2] == life_rule(
                        g[i as int][c2],
                        neighbor_count(g, i as int, c2),
                    ),
            decreases columns - c,
        {
            let neighbors = count_neighbors(read, i, c);
            let prev_state = read.get(i, c);
            let new_state = next_state(prev_state, neighbors);
            write.set(i, c, new_state);
            c = c + 1;
        }
        i = i + 1;
    }
    proof {
        assert(grid_seq(*write) =~~= grid_step(g));
    }
}

/// Counts the living neighbors of cell `(i, j)` among the up-to-8
/// grid-adjacent cells, with cells beyond the grid's edge not counted.
pub fn count_neighbors(read: &CellGrid, i: usize, j: usize) -> (count: i32)
    requires
        1 <= grid_seq(*read).len(),
        is_grid(grid_seq(*read), grid_seq(*read).len() as int, grid_seq(*read)[0].len() as int),
        i < grid_seq(*read).len(),
        j < grid_seq(*read)[0].len(),
    ensures
        count == neighbor_count(grid_seq(*read), i as int, j as int),
        0 <= count <= 8,
{
    let ghost g = grid_seq(*read);
    let (rows, columns) = read.dims();
    let mut count: i32 = 0;
    if i > 0 {
        if j > 0 && read.get(i - 1, j - 1) {
            count = count + 1;
        }
        if read.get(i - 1, j) {
            count = count + 1;
        }
        if j + 1 < columns && read.get(i - 1, j + 1) {
            count = count + 1;
        }
    }
    if j > 0 && read.get(i, j - 1) {
        count = count + 1;
    }
    if j + 1 < columns && read.get(i, j + 1) {
        count = count + 1;
    }
    if i + 1 < rows {
        if j > 0 && read.get(i + 1, j - 1) {
            count = count + 1;
        }
        if read.get(i + 1, j) {
            count = count + 1;
        }
        if j + 1 < columns && read.get(i + 1, j + 1) {
            count = count + 1;
        }
    }
    count
}

/// Applies the survival rule to one cell: the next state is a function of
/// the previous state and the number of living neighbors alone.
pub fn next_state(prev_state: bool, neighbors: i32) -> (alive: bool)
    ensures
        alive == life_rule(prev_state, neighbors as int),
{
    if prev_state && neighbors < 2 {
        false
    } else if prev_state && neighbors < 4 {
        true
    } else if prev_state {
        false
    } else if neighbors == 3 {
        true
    } else {
        false
    }
}

/// Decides whether the pattern's bounding box, anchored at `(i, j)`, lies
/// entirely within the grid.
pub(crate) fn check_fits<T: GOLPattern>(
    read: &CellGrid,
    pattern: &T,
    i: usize,
    j: usize,
) -> (ok: bool)
    requires
        1 <= grid_seq(*read).len(),
        is_grid(grid_seq(*read), grid_seq(*read).len() as int, grid_seq(*read)[0].len() as int),
    ensures
        ok == pattern_fits(
            i as int,
            j as int,
            pattern.spec_height(),
            pattern.spec_width(),
            grid_seq(*read).len() as int,
            grid_seq(*read)[0].len() as int,
        ),
{
    let (rows, columns) = read.dims();
    let (height, width) = pattern.get_dims();
    height <= rows && i <= rows - height && width <= columns && j <= columns - width
}

} // verus!
