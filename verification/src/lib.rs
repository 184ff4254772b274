//! A grid-addressed puzzle world: compass directions, bounded positions,
//! dense grids, line and rectangle traversals, terrain rooms and an overlay
//! of walled puzzle regions, with movement and effect casting on top.

pub mod util;
pub mod puzzle;
pub mod world;
pub mod actions;
pub mod tilemap;
