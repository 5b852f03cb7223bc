//! Core engine of a sliding-tile ("taquin") puzzle.
//!
//! The library owns the grid of tiles, decides which run of tiles slides
//! when a cell is activated, scrambles the board, and detects the winning
//! position. Rendering, image slicing and input handling live outside.

pub mod cell;
pub mod grid;
pub mod laws;
pub mod moves;
pub mod scramble;

pub use cell::Cell;
pub use cell::Direction;
pub use cell::GridError;
pub use cell::MoveOutcome;
pub use cell::TaquinCoord;
pub use cell::TaquinSide;
pub use grid::Grid;
pub use moves::resolve;
