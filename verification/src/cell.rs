//! Plain data types of the puzzle: directions, move outcomes, grid
//! dimensions, coordinates, tiles and the error taxonomy.

use vstd::prelude::*;

verus! {

/// Direction in which the void cell travels during a shift.
#[derive(Clone, Copy, Debug, PartialEq, Eq, Structural)]
pub enum Direction {
    Left,
    Right,
    Up,
    Down,
}

/// What activating a coordinate means for the grid: either nothing, or a
/// run-slide that moves the void `distance` single steps in `direction`.
#[derive(Clone, Copy, Debug, PartialEq, Eq, Structural)]
pub enum MoveOutcome {
    NoOp,
    Shift(Direction, usize),
}

/// Fixed dimensions of a grid: `num_col` columns by `num_line` lines.
#[derive(Clone, Copy, Debug, PartialEq, Eq, Structural)]
pub struct TaquinSide {
    pub num_line: usize,
    pub num_col: usize,
}

impl Default for TaquinSide {
    /// The classic board: five columns by five lines.
    fn default() -> (s: Self)
        ensures
            s.num_line == 5,
            s.num_col == 5,
    {
        Self { num_line: 5, num_col: 5 }
    }
}

/// A 1-indexed position on the grid: column `col`, line `line`.
#[derive(Clone, Copy, Debug, PartialEq, Eq, Structural)]
pub struct TaquinCoord {
    pub line: usize,
    pub col: usize,
}

impl Default for TaquinCoord {
    /// The zero coordinate, outside any grid, used before a real position
    /// is assigned.
    fn default() -> (c: Self)
        ensures
            c.line == 0,
            c.col == 0,
    {
        Self { line: 0, col: 0 }
    }
}

/// One tile of the puzzle.
///
/// `rank` is the tile's home position in row-major order (1-based);
/// `content` is an opaque handle to the visual payload, owned and
/// interpreted only by the renderer; `is_void` marks the single empty
/// slot of the board.
#[derive(Clone, Copy, Debug, PartialEq, Eq, Structural)]
pub struct Cell {
    pub content: usize,
    pub is_void: bool,
    pub rank: usize,
}

impl Default for Cell {
    /// A placeholder tile: void, rank zero, the zero content handle.
    fn default() -> (c: Self)
        ensures
            c.content == 0,
            c.is_void,
            c.rank == 0,
    {
        Self { content: 0, is_void: true, rank: 0 }
    }
}

/// Why a grid operation was refused.
#[derive(Clone, Copy, Debug, PartialEq, Eq, Structural)]
pub enum GridError {
    /// Construction with zero cells, or with a content sequence whose
    /// length is not `num_col * num_line`.
    InvalidDimensions,
    /// A coordinate outside `[1, num_col] x [1, num_line]`.
    OutOfBounds,
}

} // verus!
