use crate::util::direction::Direction;
use vstd::prelude::*;
use vstd::std_specs::convert::FromSpecImpl;
use vstd::std_specs::ops::AddSpec;
use vstd::std_specs::ops::NegSpec;
use vstd::std_specs::ops::SubSpec;

verus! {

/// A signed displacement between two cells.
#[derive(Clone, Copy, Debug, PartialEq, Eq, Structural)]
pub struct GridVector {
    pub x: i8,
    pub y: i8,
}

impl GridVector {
    /// The unit displacement of one step in `dir`.
    pub open spec fn unit(dir: Direction) -> GridVector {
        match dir {
            Direction::North => GridVector { x: 0, y: -1i8 },
            Direction::East => GridVector { x: 1, y: 0 },
            Direction::South => GridVector { x: 0, y: 1 },
            Direction::West => GridVector { x: -1i8, y: 0 },
        }
    }

    /// Forms the vector one step further in `dir` and lets it go: the
    /// receiver is a copy, so the caller's vector stays as it is.
    #[inline]
    pub fn nudge(self, dir: Direction)
        requires
            self.add_req(GridVector::unit(dir)),
    {
        let _ = self + GridVector::from(dir);
    }
}

impl Default for GridVector {
    fn default() -> (r: GridVector)
        ensures
            r == (GridVector { x: 0, y: 0 }),
    {
        GridVector { x: 0, y: 0 }
    }
}

impl core::ops::Add<GridVector> for GridVector {
    type Output = GridVector;

    fn add(self, rhs: GridVector) -> (r: GridVector) {
        GridVector { x: self.x + rhs.x, y: self.y + rhs.y }
    }
}

impl vstd::std_specs::ops::AddSpecImpl<GridVector> for GridVector {
    open spec fn obeys_add_spec() -> bool {
        true
    }

    /// Both component sums fit the component type.
    open spec fn add_req(self, rhs: GridVector) -> bool {
        &&& -128 <= self.x + rhs.x <= 127
        &&& -128 <= self.y + rhs.y <= 127
    }

    open spec fn add_spec(self, rhs: GridVector) -> GridVector {
        GridVector { x: (self.x + rhs.x) as i8, y: (self.y + rhs.y) as i8 }
    }
}

impl core::ops::Sub<GridVector> for GridVector {
    type Output = GridVector;

    fn sub(self, rhs: GridVector) -> (r: GridVector) {
        GridVector { x: self.x - rhs.x, y: self.y - rhs.y }
    }
}

impl vstd::std_specs::ops::SubSpecImpl<GridVector> for GridVector {
    open spec fn obeys_sub_spec() -> bool {
        true
    }

    /// Both component differences fit the component type.
    open spec fn sub_req(self, rhs: GridVector) -> bool {
        &&& -128 <= self.x - rhs.x <= 127
        &&& -128 <= self.y - rhs.y <= 127
    }

    open spec fn sub_spec(self, rhs: GridVector) -> GridVector {
        GridVector { x: (self.x - rhs.x) as i8, y: (self.y - rhs.y) as i8 }
    }
}

impl core::ops::AddAssign<GridVector> for GridVector {
    /// Adds `rhs` in place; both component sums have to fit.
    fn add_assign(&mut self, rhs: GridVector)
        requires
            old(self).add_req(rhs),
        ensures
            *final(self) == old(self).add_spec(rhs),
    {
        self.x += rhs.x;
        self.y += rhs.y;
    }
}

impl core::ops::SubAssign<GridVector> for GridVector {
    /// Takes `rhs` away in place; both component differences have to fit.
    fn sub_assign(&mut self, rhs: GridVector)
        requires
            old(self).sub_req(rhs),
        ensures
            *final(self) == old(self).sub_spec(rhs),
    {
        self.x -= rhs.x;
        self.y -= rhs.y;
    }
}

impl core::ops::Neg for GridVector {
    type Output = GridVector;

    fn neg(self) -> (r: GridVector) {
        GridVector { x: -self.x, y: -self.y }
    }
}

impl vstd::std_specs::ops::NegSpecImpl for GridVector {
    open spec fn obeys_neg_spec() -> bool {
        true
    }

    /// Neither component is the one value without a positive counterpart.
    open spec fn neg_req(self) -> bool {
        self.x != -128 && self.y != -128
    }

    open spec fn neg_spec(self) -> GridVector {
        GridVector { x: (-self.x) as i8, y: (-self.y) as i8 }
    }
}

impl From<Direction> for GridVector {
    fn from(dir: Direction) -> (r: GridVector) {
        match dir {
            Direction::North => GridVector { x: 0, y: -1 },
            Direction::East => GridVector { x: 1, y: 0 },
            Direction::South => GridVector { x: 0, y: 1 },
            Direction::West => GridVector { x: -1, y: 0 },
        }
    }
}

impl FromSpecImpl<Direction> for GridVector {
    open spec fn obeys_from_spec() -> bool {
        true
    }

    open spec fn from_spec(dir: Direction) -> GridVector {
        GridVector::unit(dir)
    }
}

impl From<(i8, i8)> for GridVector {
    #[inline]
    fn from(tuple: (i8, i8)) -> (r: GridVector) {
        GridVector { x: tuple.0, y: tuple.1 }
    }
}

impl FromSpecImpl<(i8, i8)> for GridVector {
    open spec fn obeys_from_spec() -> bool {
        true
    }

    open spec fn from_spec(tuple: (i8, i8)) -> GridVector {
        GridVector { x: tuple.0, y: tuple.1 }
    }
}

/// Adding a vector and then taking it away again gives the start, and the
/// displacement of a direction is the negation of that of its opposite.
pub proof fn lemma_vector_inverse(v: GridVector, w: GridVector, dir: Direction)
    requires
        v.add_req(w),
    ensures
        v.add_spec(w).sub_req(w),
        v.add_spec(w).sub_spec(w) == v,
        GridVector::unit(dir).neg_req(),
        GridVector::unit(dir).neg_spec() == GridVector::unit(dir.spec_opposite()),
{
}

} // verus!
