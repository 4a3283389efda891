//! The pattern catalog: named stamps that write a fixed arrangement of live
//! cells into a bounding box of declared size, and never touch a cell
//! outside that box.
use vstd::prelude::*;

use crate::grid::CellGrid;
use crate::grid::grid_seq;
use crate::life::is_grid;
use crate::life::pattern_fits;
use crate::life::stamped;
use crate::life::unchanged_outside_box;

verus! {

/// A pattern for Conway's Game of Life that can be written to a game board.
///
/// A pattern declares the size of the bounding box it occupies and a
/// placement procedure that may only change cells inside that box. What the
/// placement leaves behind is pinned down by `place_spec`, which relates the
/// grid before the placement to the grid after it.
pub trait GOLPattern: Sized {
    /// Height of the bounding box the pattern occupies.
    spec fn spec_height(&self) -> int;

    /// Width of the bounding box the pattern occupies.
    spec fn spec_width(&self) -> int;

    /// Relation between the grid before placement at `(i, j)` and the grid
    /// after it.
    spec fn place_spec(
        &self,
        prev: Seq<Seq<bool>>,
        i: int,
        j: int,
        cur: Seq<Seq<bool>>,
    ) -> bool;

    /// Places the pattern onto the given game board starting at the given
    /// position.
    ///
    /// This function must not change any values outside the region of the
    /// given starting position plus the pattern dimensions returned by
    /// `get_dims`.
    fn place(&self, grid: &mut CellGrid, i: usize, j: usize)
        requires
            is_grid(
                grid_seq(*old(grid)),
                grid_seq(*old(grid)).len() as int,
                grid_seq(*old(grid))[0].len() as int,
            ),
            1 <= grid_seq(*old(grid)).len() <= usize::MAX,
            grid_seq(*old(grid))[0].len() <= usize::MAX,
            pattern_fits(
                i as int,
                j as int,
                self.spec_height(),
                self.spec_width(),
                grid_seq(*old(grid)).len() as int,
                grid_seq(*old(grid))[0].len() as int,
            ),
        ensures
            unchanged_outside_box(
                grid_seq(*old(grid)),
                grid_seq(*final(grid)),
                i as int,
                j as int,
                self.spec_height(),
                self.spec_width(),
            ),
            self.place_spec(grid_seq(*old(grid)), i as int, j as int, grid_seq(*final(grid))),
    ;

    /// Returns the dimensions of the region that the pattern will be written
    /// to. (rows, columns)
    fn get_dims(&self) -> (d: (usize, usize))
        ensures
            d.0 as int == self.spec_height(),
            d.1 as int == self.spec_width(),
    ;
}

/// The relative offsets inside a Blinker's bounding box that become alive:
/// the three rows of the middle column.
pub open spec fn blinker_marks(di: int, dj: int) -> bool {
    ||| (di, dj) == (0int, 1int)
    ||| (di, dj) == (1int, 1int)
    ||| (di, dj) == (2int, 1int)
}

/// A Blinker pattern.
///
/// A line of three alive cells that blink by oscilating between a vertical
/// line and a horizontal line.
///
/// A region of 3x3 cells is resverved for placing the pattern, however it
/// currently only places a blinker in the vertical orientation in the middle
/// of the reserved area.
#[derive(Debug)]
pub struct Blinker {}

impl GOLPattern for Blinker {
    open spec fn spec_height(&self) -> int {
        3
    }

    open spec fn spec_width(&self) -> int {
        3
    }

    open spec fn place_spec(
        &self,
        prev: Seq<Seq<bool>>,
        i: int,
        j: int,
        cur: Seq<Seq<bool>>,
    ) -> bool {
        stamped(prev, cur, i, j, |di: int, dj: int| blinker_marks(di, dj))
    }

    fn place(&self, grid: &mut CellGrid, i: usize, j: usize) {
        grid.set(i, j + 1, true);
        grid.set(i + 1, j + 1, true);
        grid.set(i + 2, j + 1, true);
    }

    fn get_dims(&self) -> (d: (usize, usize)) {
        (3, 3)
    }
}

/// The relative offsets inside a Glider's bounding box that become alive:
/// one cell in the top row, one at the middle right, and the whole bottom
/// row.
pub open spec fn glider_marks(di: int, dj: int) -> bool {
    ||| (di, dj) == (0int, 1int)
    ||| (di, dj) == (1int, 2int)
    ||| (di, dj) == (2int, 0int)
    ||| (di, dj) == (2int, 1int)
    ||| (di, dj) == (2int, 2int)
}

/// A Glider pattern.
///
/// An arrangement of cells in a 3x3 region that slowly moves across the
/// board.
///
/// When placed on the board, only the classic phase and orientation is used.
#[derive(Debug)]
pub struct Glider {}

impl GOLPattern for Glider {
    open spec fn spec_height(&self) -> int {
        3
    }

    open spec fn spec_width(&self) -> int {
        3
    }

    open spec fn place_spec(
        &self,
        prev: Seq<Seq<bool>>,
        i: int,
        j: int,
        cur: Seq<Seq<bool>>,
    ) -> bool {
        stamped(prev, cur, i, j, |di: int, dj: int| glider_marks(di, dj))
    }

    fn place(&self, grid: &mut CellGrid, i: usize, j: usize) {
        grid.set(i, j + 1, true);
        grid.set(i + 1, j + 2, true);
        grid.set(i + 2, j, true);
        grid.set(i + 2, j + 1, true);
        grid.set(i + 2, j + 2, true);
    }

    fn get_dims(&self) -> (d: (usize, usize)) {
        (3, 3)
    }
}

/// Relies on `rand::random`: draws a value from the standard distribution
/// of `T`. Nothing can be promised of the value drawn.
pub assume_specification<T>[ rand::random::<T> ]() -> (r: T)
    where
        rand::distr::StandardUniform: rand::distr::Distribution<T>,
;

/// A random pattern.
///
/// A field of cells that are filled with a random pattern. Each cell of the
/// declared region receives an independent draw, so nothing is promised of
/// the cells inside the box; cells outside the box keep their prior state.
#[derive(Debug)]
pub struct RandomField {
    pub rows: usize,
    pub columns: usize,
}

impl GOLPattern for RandomField {
    open spec fn spec_height(&self) -> int {
        self.rows as int
    }

    open spec fn spec_width(&self) -> int {
        self.columns as int
    }

    open spec fn place_spec(
        &self,
        prev: Seq<Seq<bool>>,
        i: int,
        j: int,
        cur: Seq<Seq<bool>>,
    ) -> bool {
        true
    }

    fn place(&self, grid: &mut CellGrid, i: usize, j: usize) {
        let ghost prev = grid_seq(*grid);
        let mut i2: usize = 0;
        while i2 < self.rows
            invariant
                i2 <= self.rows,
                is_grid(prev, prev.len() as int, prev[0].len() as int),
                1 <= prev.len() <= usize::MAX,
                prev[0].len() <= usize::MAX,
                i + self.rows <= prev.len(),
                j + self.columns <= prev[0].len(),
                unchanged_outside_box(
                    prev,
                    grid_seq(*grid),
                    i as int,
                    j as int,
                    self.rows as int,
                    self.columns as int,
                ),
            decreases self.rows - i2,
        {
            let mut j2: usize = 0;
            while j2 < self.columns
                invariant
                    i2 < self.rows,
                    j2 <= self.columns,
                    is_grid(prev, prev.len() as int, prev[0].len() as int),
                    1 <= prev.len() <= usize::MAX,
                    prev[0].len() <= usize::MAX,
                    i + self.rows <= prev.len(),
                    j + self.columns <= prev[0].len(),
                    unchanged_outside_box(
                        prev,
                        grid_seq(*grid),
                        i as int,
                        j as int,
                        self.rows as int,
                        self.columns as int,
                    ),
                decreases self.columns - j2,
            {
                let r = i + i2;
                let c = j + j2;
                let v = rand::random::<bool>();
                grid.set(r, c, v);
                j2 = j2 + 1;
            }
            i2 = i2 + 1;
        }
    }

    fn get_dims(&self) -> (d: (usize, usize)) {
        (self.rows, self.columns)
    }
}

} // verus!
