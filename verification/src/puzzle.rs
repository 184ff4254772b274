//! The overlay of puzzle regions: cells, walls between regions and the
//! status of each region.

pub mod cell;
pub mod grid;

pub use cell::Plant;
pub use cell::PuzzleCell;
pub use cell::PuzzleId;
pub use cell::PuzzleStatus;
pub use grid::PuzzleGrid;
