//! Directions, positions, traversals and the dense grid container.

pub mod direction;
pub mod grid;
pub mod index;
pub mod traversal;
pub mod vector;

pub use direction::Direction;
pub use grid::Grid;
pub use index::GridIndex;
pub use traversal::LineIterator;
pub use traversal::RectIterator;
pub use vector::GridVector;
