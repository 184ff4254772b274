use crate::util::direction::Direction;
use vstd::prelude::*;
use vstd::std_specs::convert::FromSpecImpl;

verus! {

/// A cell address on a grid, or the size of a grid: `x` counts columns from
/// the west edge and `y` counts rows from the north edge.
#[derive(Clone, Copy, Debug, PartialEq, Eq, Structural)]
pub struct GridIndex {
    pub x: u8,
    pub y: u8,
}

impl GridIndex {
    /// The neighbour one unit away in `dir`, if there is one. Moving north
    /// or west fails on row or column 0; moving east or south fails when
    /// the next column or row would not lie below `bound`.
    pub open spec fn spec_step(self, dir: Direction, bound: GridIndex) -> Option<GridIndex> {
        match dir {
            Direction::North => if self.y > 0 {
                Some(GridIndex { x: self.x, y: (self.y - 1) as u8 })
            } else {
                None
            },
            Direction::East => if self.x + 1 < bound.x {
                Some(GridIndex { x: (self.x + 1) as u8, y: self.y })
            } else {
                None
            },
            Direction::South => if self.y + 1 < bound.y {
                Some(GridIndex { x: self.x, y: (self.y + 1) as u8 })
            } else {
                None
            },
            Direction::West => if self.x > 0 {
                Some(GridIndex { x: (self.x - 1) as u8, y: self.y })
            } else {
                None
            },
        }
    }

    /// Whether the position lies on the outer edge of `bound` that `dir`
    /// points at.
    pub open spec fn on_edge(self, dir: Direction, bound: GridIndex) -> bool {
        match dir {
            Direction::North => self.y == 0,
            Direction::East => self.x + 1 == bound.x,
            Direction::South => self.y + 1 == bound.y,
            Direction::West => self.x == 0,
        }
    }

    /// The position moved along the axis of `dir` onto the outer edge of
    /// `bounds` that `dir` points at.
    pub open spec fn spec_snap_to_edge(self, dir: Direction, bounds: GridIndex) -> GridIndex {
        match dir {
            Direction::North => GridIndex { x: self.x, y: 0 },
            Direction::East => GridIndex { x: (bounds.x - 1) as u8, y: self.y },
            Direction::South => GridIndex { x: self.x, y: (bounds.y - 1) as u8 },
            Direction::West => GridIndex { x: 0, y: self.y },
        }
    }

    /// Strictly greater in both components: read with `self` as a size,
    /// `other` addresses a cell of a grid of that size.
    pub open spec fn spec_contains(self, other: GridIndex) -> bool {
        self.x > other.x && self.y > other.y
    }

    pub open spec fn spec_is_within(self, bound: GridIndex) -> bool {
        bound.spec_contains(self)
    }

    /// Component-wise sum, each component held at 255.
    pub open spec fn spec_component_add(self, other: GridIndex) -> GridIndex {
        GridIndex {
            x: if self.x + other.x > 255 { 255u8 } else { (self.x + other.x) as u8 },
            y: if self.y + other.y > 255 { 255u8 } else { (self.y + other.y) as u8 },
        }
    }

    /// Component-wise distance.
    pub open spec fn spec_component_diff(self, other: GridIndex) -> GridIndex {
        GridIndex {
            x: if self.x >= other.x { (self.x - other.x) as u8 } else { (other.x - self.x) as u8 },
            y: if self.y >= other.y { (self.y - other.y) as u8 } else { (other.y - self.y) as u8 },
        }
    }

    #[verifier::when_used_as_spec(spec_step)]
    pub fn step(self, dir: Direction, bound: GridIndex) -> (r: Option<GridIndex>)
        ensures
            r == self.spec_step(dir, bound),
        no_unwind
    {
        match dir {
            Direction::North => if self.y > 0 {
                Some(GridIndex { x: self.x, y: self.y - 1 })
            } else {
                None
            },
            Direction::East => if self.x < 255 && self.x + 1 < bound.x {
                Some(GridIndex { x: self.x + 1, y: self.y })
            } else {
                None
            },
            Direction::South => if self.y < 255 && self.y + 1 < bound.y {
                Some(GridIndex { x: self.x, y: self.y + 1 })
            } else {
                None
            },
            Direction::West => if self.x > 0 {
                Some(GridIndex { x: self.x - 1, y: self.y })
            } else {
                None
            },
        }
    }

    #[verifier::when_used_as_spec(spec_snap_to_edge)]
    pub fn snap_to_edge(self, dir: Direction, bounds: GridIndex) -> (r: GridIndex)
        requires
            dir == Direction::East ==> bounds.x > 0,
            dir == Direction::South ==> bounds.y > 0,
        ensures
            r == self.spec_snap_to_edge(dir, bounds),
    {
        match dir {
            Direction::North => GridIndex { x: self.x, y: 0 },
            Direction::East => GridIndex { x: bounds.x - 1, y: self.y },
            Direction::South => GridIndex { x: self.x, y: bounds.y - 1 },
            Direction::West => GridIndex { x: 0, y: self.y },
        }
    }

    #[verifier::when_used_as_spec(spec_contains)]
    pub fn contains(self, other: GridIndex) -> (r: bool)
        ensures
            r == self.spec_contains(other),
    {
        self.x > other.x && self.y > other.y
    }

    #[verifier::when_used_as_spec(spec_is_within)]
    pub fn is_within(self, bound: GridIndex) -> (r: bool)
        ensures
            r == self.spec_is_within(bound),
    {
        bound.contains(self)
    }

    #[verifier::when_used_as_spec(spec_component_add)]
    pub fn component_add(self, other: GridIndex) -> (r: GridIndex)
        ensures
            r == self.spec_component_add(other),
    {
        GridIndex { x: self.x.saturating_add(other.x), y: self.y.saturating_add(other.y) }
    }

    #[verifier::when_used_as_spec(spec_component_diff)]
    pub fn component_diff(self, other: GridIndex) -> (r: GridIndex)
        ensures
            r == self.spec_component_diff(other),
    {
        let dx: u8 = if self.x >= other.x {
            self.x - other.x
        } else {
            other.x - self.x
        };
        let dy: u8 = if self.y >= other.y {
            self.y - other.y
        } else {
            other.y - self.y
        };
        GridIndex { x: dx, y: dy }
    }
}

impl Default for GridIndex {
    fn default() -> (r: GridIndex)
        ensures
            r == (GridIndex { x: 0, y: 0 }),
    {
        GridIndex { x: 0, y: 0 }
    }
}

impl From<(u8, u8)> for GridIndex {
    fn from(tuple: (u8, u8)) -> (r: GridIndex) {
        GridIndex { x: tuple.0, y: tuple.1 }
    }
}

impl FromSpecImpl<(u8, u8)> for GridIndex {
    open spec fn obeys_from_spec() -> bool {
        true
    }

    open spec fn from_spec(tuple: (u8, u8)) -> GridIndex {
        GridIndex { x: tuple.0, y: tuple.1 }
    }
}

/// From a position inside `bound`, a step fails exactly on the outer edge
/// that the direction points at; every step that succeeds stays inside
/// `bound` and moves one unit along the axis of the direction.
pub proof fn lemma_step_within(p: GridIndex, dir: Direction, bound: GridIndex)
    requires
        p.spec_is_within(bound),
    ensures
        p.spec_step(dir, bound) is None <==> p.on_edge(dir, bound),
        p.spec_step(dir, bound) matches Some(q) ==> q.spec_is_within(bound)
            && q.spec_component_diff(p) == match dir {
            Direction::North | Direction::South => GridIndex { x: 0, y: 1 },
            Direction::East | Direction::West => GridIndex { x: 1, y: 0 },
        },
{
}

/// A step forward followed by a step back returns to the start.
pub proof fn lemma_step_back(p: GridIndex, dir: Direction, bound: GridIndex)
    requires
        p.spec_is_within(bound),
    ensures
        p.spec_step(dir, bound) matches Some(q) ==> q.spec_step(dir.spec_opposite(), bound) == Some(
            p,
        ),
{
}

} // verus!
