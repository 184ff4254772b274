use crate::util::grid::Grid;
use crate::util::index::GridIndex;
use vstd::prelude::*;

verus! {

/// What the ground of a tile is made of.
#[derive(Clone, Copy, Debug, PartialEq, Eq, Structural)]
pub enum Material {
    Grass,
    Dirt,
    Sand,
    Stone,
    Water,
}

/// An object that stands on a tile and blocks the way.
#[derive(Clone, Copy, Debug, PartialEq, Eq, Structural)]
pub enum Prop {
    Rock,
}

/// One tile of terrain.
#[derive(Clone, Copy, Debug, PartialEq, Eq, Structural)]
pub struct Tile {
    pub material: Material,
    pub prop: Option<Prop>,
    pub elevation: u8,
}

/// The static geometry of the world: a grid of tiles. A position without
/// a tile is void.
pub struct Room {
    pub tiles: Grid<Option<Tile>>,
}

impl Room {
    /// Width and height of the room.
    pub open spec fn spec_size(&self) -> GridIndex {
        self.tiles.spec_size()
    }

    /// The tile at `pos`; none where the room is void or `pos` lies
    /// outside the room.
    pub open spec fn tile_at(&self, pos: GridIndex) -> Option<Tile> {
        if self.tiles.spec_bounds_check(pos) {
            self.tiles.spec_index(pos)
        } else {
            None
        }
    }

    #[verifier::when_used_as_spec(spec_size)]
    pub fn size(&self) -> (r: GridIndex)
        ensures
            r == self.spec_size(),
    {
        self.tiles.size()
    }
}

} // verus!
