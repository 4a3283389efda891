//! A Conway's Game of Life simulation on a fixed-size, bounded grid.
//!
//! A [`Board`] owns two same-shaped grids and advances the cell states
//! generation by generation, always reading one grid and writing the other;
//! patterns from the catalog ([`Blinker`], [`Glider`], [`RandomField`]) are
//! stamped onto the board through [`Board::place_pattern`].
pub mod board;
pub mod grid;
pub mod life;
pub mod locality;
pub mod output;
pub mod patterns;

pub use board::Board;
pub use board::OutOfBounds;
pub use board::count_neighbors;
pub use board::next_state;
pub use output::get_image_path;
pub use patterns::Blinker;
pub use patterns::GOLPattern;
pub use patterns::Glider;
pub use patterns::RandomField;
