//! Conway's Game of Life on fixed-size square grids.
//!
//! The update rule and its laws live in [`life`]; the line structure
//! of the text form in [`text`]. [`grid`] holds a 16-by-16 board with
//! `o`/`.` glyphs, and [`conway`] an 8-by-8 board with `X`/`.` glyphs.

pub mod conway;
pub mod grid;
pub mod life;
pub mod text;

pub use grid::Grid;
