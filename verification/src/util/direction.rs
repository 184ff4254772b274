use vstd::prelude::*;

verus! {

/// A compass direction on the grid. North points toward row 0 and West
/// toward column 0.
#[derive(Clone, Copy, Debug, PartialEq, Eq, Structural)]
pub enum Direction {
    North,
    East,
    South,
    West,
}

impl Direction {
    /// Position of the direction in clockwise order, starting at North.
    pub open spec fn ordinal(self) -> nat {
        match self {
            Direction::North => 0,
            Direction::East => 1,
            Direction::South => 2,
            Direction::West => 3,
        }
    }

    /// The direction pointing the other way.
    pub open spec fn spec_opposite(self) -> Direction {
        match self {
            Direction::North => Direction::South,
            Direction::East => Direction::West,
            Direction::South => Direction::North,
            Direction::West => Direction::East,
        }
    }

    /// The bit that stands for this direction in a wall mask.
    pub open spec fn spec_as_flag(self) -> u8 {
        match self {
            Direction::North => 1,
            Direction::East => 2,
            Direction::South => 4,
            Direction::West => 8,
        }
    }

    /// Two directions are orthogonal when one runs along a column and the
    /// other along a row.
    pub open spec fn spec_is_orthogonal(self, other: Direction) -> bool {
        (self.ordinal() + other.ordinal()) % 2 == 1
    }

    /// The four directions in clockwise order, starting at North.
    pub fn all() -> (r: &'static [Direction])
        ensures
            r@ == seq![Direction::North, Direction::East, Direction::South, Direction::West],
    {
        &[Direction::North, Direction::East, Direction::South, Direction::West]
    }

    #[verifier::when_used_as_spec(spec_opposite)]
    pub fn opposite(self) -> (r: Direction)
        ensures
            r == self.spec_opposite(),
    {
        match self {
            Direction::North => Direction::South,
            Direction::East => Direction::West,
            Direction::South => Direction::North,
            Direction::West => Direction::East,
        }
    }

    #[verifier::when_used_as_spec(spec_as_flag)]
    pub fn as_flag(self) -> (r: u8)
        ensures
            r == self.spec_as_flag(),
    {
        match self {
            Direction::North => 1,
            Direction::East => 2,
            Direction::South => 4,
            Direction::West => 8,
        }
    }

    #[verifier::when_used_as_spec(spec_is_orthogonal)]
    pub fn is_orthogonal(self, other: Direction) -> (r: bool)
        ensures
            r == self.spec_is_orthogonal(other),
    {
        match self {
            Direction::North | Direction::South => match other {
                Direction::East | Direction::West => true,
                _ => false,
            },
            Direction::East | Direction::West => match other {
                Direction::North | Direction::South => true,
                _ => false,
            },
        }
    }
}

/// Turning round twice gives the direction one started with, turning
/// round once never does, and a direction is orthogonal to exactly the
/// directions that are neither itself nor its opposite.
pub proof fn lemma_opposite(dir: Direction, other: Direction)
    ensures
        dir.spec_opposite().spec_opposite() == dir,
        dir.spec_opposite() != dir,
        dir.spec_is_orthogonal(other) <==> other != dir && other != dir.spec_opposite(),
        dir.spec_is_orthogonal(other) == other.spec_is_orthogonal(dir),
{
}

/// The flag of a direction is the bit at the place of the direction in
/// clockwise order, so the flags of two different directions share no
/// bit, and the four flags together fill the mask 15.
pub proof fn lemma_flags(a: Direction, b: Direction)
    ensures
        a.spec_as_flag() == 1u8 << (a.ordinal() as u8),
        a != b ==> a.spec_as_flag() & b.spec_as_flag() == 0,
        a == b ==> a.spec_as_flag() & b.spec_as_flag() == a.spec_as_flag(),
        Direction::North.spec_as_flag() | Direction::East.spec_as_flag()
            | Direction::South.spec_as_flag() | Direction::West.spec_as_flag() == 15,
{
    assert(1u8 << 0u8 == 1 && 1u8 << 1u8 == 2 && 1u8 << 2u8 == 4 && 1u8 << 3u8 == 8)
        by (bit_vector);
    let f = a.spec_as_flag();
    let g = b.spec_as_flag();
    assert((f != g ==> f & g == 0) && (f == g ==> f & g == f)) by (bit_vector)
        requires
            f == 1 || f == 2 || f == 4 || f == 8,
            g == 1 || g == 2 || g == 4 || g == 8,
    ;
    assert(1u8 | 2u8 | 4u8 | 8u8 == 15) by (bit_vector);
}

} // verus!
