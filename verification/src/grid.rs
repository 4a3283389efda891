//! The storage layer: a two-dimensional `ndarray` array of cell states,
//! seen by the rest of the library as a sequence of rows of booleans.
//!
//! `ndarray::ArrayBase` cannot be declared to the verifier, since its
//! declaration would need the crate's `RawData` trait bound, so the array
//! is held in a private field of an opaque struct and reached only through
//! the wrappers below. Everything here that carries a contract without a
//! proof is a trusted statement about `ndarray`; the doc comment of each
//! item names the function relied on.
use vstd::prelude::*;

use crate::life::dead_grid;

verus! {

/// A two-dimensional array of cell states, stored as an
/// `ndarray::Array2<bool>`.
#[verifier::external_body]
pub struct CellGrid {
    inner: ndarray::Array2<bool>,
}

/// The contents of a cell-state array, row by row from the top, each row's
/// cells from the left.
pub uninterp spec fn grid_seq(a: CellGrid) -> Seq<Seq<bool>>;

impl CellGrid {
    /// Relies on `ndarray::ArrayBase::default`: builds a `rows` x `cols`
    /// array with every element `bool::default()`, that is `false`. It
    /// panics when the product of the non-zero axis lengths overflows
    /// `isize` -- with a zero axis the other axis alone must fit -- so both
    /// cases are excluded here.
    #[verifier::external_body]
    pub fn new(rows: usize, cols: usize) -> (a: CellGrid)
        requires
            rows * cols <= isize::MAX,
            rows <= isize::MAX,
            cols <= isize::MAX,
        ensures
            grid_seq(a) == dead_grid(rows as int, cols as int),
    {
        CellGrid { inner: ndarray::Array2::<bool>::default((rows, cols)) }
    }

    /// Relies on `ndarray::ArrayRef::dim`: returns the array's shape as a
    /// `(rows, columns)` pair; a two-dimensional array holds exactly that
    /// many rows, each that many cells wide.
    #[verifier::external_body]
    pub fn dims(&self) -> (d: (usize, usize))
        ensures
            d.0 == grid_seq(*self).len(),
            forall|r: int|
                0 <= r < grid_seq(*self).len() ==> (#[trigger] grid_seq(*self)[r]).len() == d.1,
    {
        self.inner.dim()
    }

    /// Relies on `ndarray`'s `Index` implementation for `[usize; 2]`:
    /// returns the element at `(i, j)`. It panics out of bounds, so that
    /// is excluded here.
    #[verifier::external_body]
    pub fn get(&self, i: usize, j: usize) -> (v: bool)
        requires
            i < grid_seq(*self).len(),
            j < grid_seq(*self)[i as int].len(),
        ensures
            v == grid_seq(*self)[i as int][j as int],
    {
        self.inner[[i, j]]
    }

    /// Relies on `ndarray`'s `IndexMut` implementation for `[usize; 2]`:
    /// writes the element at `(i, j)` and touches no other element. It
    /// panics out of bounds, so that is excluded here.
    #[verifier::external_body]
    pub fn set(&mut self, i: usize, j: usize, v: bool)
        requires
            i < grid_seq(*old(self)).len(),
            j < grid_seq(*old(self))[i as int].len(),
        ensures
            grid_seq(*final(self)) == grid_seq(*old(self)).update(
                i as int,
                grid_seq(*old(self))[i as int].update(j as int, v),
            ),
    {
        self.inner[[i, j]] = v;
    }
}

} // verus!
