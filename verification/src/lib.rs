//! A falling-block puzzle engine: a bounded grid of optional cells, the seven
//! classic pieces, and the automaton that makes placed pieces fall, lock and
//! clear full rows.
//!
//! - [`grid`]: the grid container `Space`, its model `Grid`, placement and
//!   rotation.
//! - [`equality`]: `==` on grids.
//! - [`mask`]: presence masks for masked placement.
//! - [`text`]: a textual picture of a grid.
//! - [`colors`], [`shapes`]: the colors and the catalog of pieces.
//! - [`desk`]: the playing field and its tick: fall, lock, clear.
//! - [`descent`], [`clearing`], [`settled`]: what is proved of the tick.
//! - [`session`]: the rules of a game on several fields.

pub mod clearing;
pub mod colors;
pub mod descent;
pub mod desk;
pub mod equality;
pub mod grid;
pub mod mask;
pub mod session;
pub mod settled;
pub mod shapes;
pub mod text;
