use crate::util::direction::Direction;
use vstd::prelude::*;

verus! {

/// Names a puzzle region: regions are numbered from 0 without gaps.
pub type PuzzleId = usize;

/// How far the interaction with a puzzle region has gone. A region starts
/// out `Virgin` and never returns to it.
#[derive(Clone, Copy, Debug, PartialEq, Eq, Structural)]
pub enum PuzzleStatus {
    Virgin,
    Exhausted,
    Complete,
}

impl Default for PuzzleStatus {
    fn default() -> (r: PuzzleStatus)
        ensures
            r == PuzzleStatus::Virgin,
    {
        PuzzleStatus::Virgin
    }
}

/// What grows in a puzzle cell.
#[derive(Clone, Copy, Debug, PartialEq, Eq, Structural)]
pub enum Plant {
    Default,
}

/// One cell of the puzzle overlay: its occupant, how often the occupant
/// was hit, the region the cell belongs to and the walls on its four sides.
#[derive(Clone, Copy, Debug, PartialEq, Eq, Structural)]
pub struct PuzzleCell {
    pub plant: Option<Plant>,
    pub hits: u8,
    pub region: PuzzleId,
    /// One bit for each side, set where the side is walled: the flags of
    /// the directions, and no bit beyond them.
    pub wall_data: u8,
}

/// The glyph that shows the walls of a cell of a region that is spent:
/// a light stroke toward each walled side, the wall mask being the index.
pub open spec fn exhausted_glyphs() -> Seq<char> {
    seq![
        ' ', '╵', '╶', '└',
        '╷', '│', '┌', '├',
        '╴', '┘', '─', '┴',
        '┐', '┤', '┬', '┼',
    ]
}

/// The glyph that shows the walls of a cell of an untouched region: a
/// heavy stroke toward each walled side, the wall mask being the index.
pub open spec fn virgin_glyphs() -> Seq<char> {
    seq![
        ' ', '╹', '╺', '┗',
        '╻', '┃', '┏', '┣',
        '╸', '┛', '━', '┻',
        '┓', '┫', '┳', '╋',
    ]
}

impl PuzzleCell {
    /// The walls of the cell as a mask below 16: the flag of each walled
    /// side is set, no other bit.
    pub open spec fn mask(&self) -> u8 {
        self.wall_data & 15
    }

    pub open spec fn spec_is_sprouted(&self) -> bool {
        self.hits > 0
    }

    /// Whether the side of the cell that faces `dir` is walled.
    pub open spec fn spec_has_wall(&self, dir: Direction) -> bool {
        self.mask() & dir.spec_as_flag() != 0
    }

    /// The cell with the wall on the side that faces `dir` put up or taken
    /// down.
    pub open spec fn spec_set_wall(self, dir: Direction, val: bool) -> PuzzleCell {
        PuzzleCell {
            plant: self.plant,
            hits: self.hits,
            region: self.region,
            wall_data: if val {
                self.wall_data | dir.spec_as_flag()
            } else {
                self.wall_data & !dir.spec_as_flag()
            },
        }
    }

    /// The cell with every wall taken down.
    pub open spec fn spec_clear_walls(self) -> PuzzleCell {
        PuzzleCell { plant: self.plant, hits: self.hits, region: self.region, wall_data: 0 }
    }

    /// A cell of `region` that was never hit and has no walls.
    pub fn new(region: PuzzleId, plant: Option<Plant>) -> (r: PuzzleCell)
        ensures
            r == (PuzzleCell { plant, hits: 0, region, wall_data: 0 }),
    {
        PuzzleCell { plant, hits: 0, region, wall_data: 0 }
    }

    #[verifier::when_used_as_spec(spec_is_sprouted)]
    pub fn is_sprouted(&self) -> (r: bool)
        ensures
            r == self.spec_is_sprouted(),
    {
        self.hits > 0
    }

    #[verifier::when_used_as_spec(spec_has_wall)]
    pub fn has_wall(&self, dir: Direction) -> (r: bool)
        ensures
            r == self.spec_has_wall(dir),
    {
        let w = self.wall_data;
        let f = dir.as_flag();
        assert(((w & 15) & f != 0) == (w & f != 0)) by (bit_vector)
            requires
                f == 1 || f == 2 || f == 4 || f == 8,
        ;
        self.wall_data & dir.as_flag() != 0
    }

    /// Puts up or takes down the wall on the side that faces `dir`. The
    /// other walls and the rest of the cell stay as they are.
    pub fn set_wall(&mut self, dir: Direction, val: bool)
        ensures
            *final(self) == old(self).spec_set_wall(dir, val),
    {
        if val {
            self.wall_data |= dir.as_flag();
        } else {
            self.wall_data &= !dir.as_flag();
        }
    }

    /// Puts up the walls on the sides that face one of `dirs` and takes
    /// down every other wall.
    pub fn set_walls(&mut self, dirs: &[Direction])
        ensures
            final(self).plant == old(self).plant,
            final(self).hits == old(self).hits,
            final(self).region == old(self).region,
            final(self).wall_data < 16,
            forall|d: Direction| final(self).spec_has_wall(d) <==> dirs@.contains(d),
    {
        self.wall_data = 0;
        proof {
            lemma_clear_walls(*old(self));
        }
        let mut i: usize = 0;
        while i < dirs.len()
            invariant
                i <= dirs.len(),
                self.plant == old(self).plant,
                self.hits == old(self).hits,
                self.region == old(self).region,
                self.wall_data < 16,
                forall|d: Direction| self.spec_has_wall(d) <==> dirs@.take(i as int).contains(d),
            decreases dirs.len() - i,
        {
            let ghost before = *self;
            let dir = dirs[i];
            self.set_wall(dir, true);
            proof {
                let now = *self;
                let w = before.wall_data;
                let f = dir.spec_as_flag();
                assert((w | f) < 16) by (bit_vector)
                    requires
                        w < 16,
                        f == 1 || f == 2 || f == 4 || f == 8,
                ;
                assert forall|d: Direction| now.spec_has_wall(d) <==> dirs@.take(
                    i as int + 1,
                ).contains(d) by {
                    lemma_set_wall(before, dir, true, d);
                    assert(dirs@.take(i as int + 1) =~= dirs@.take(i as int).push(dir));
                    if dirs@.take(i as int).contains(d) {
                        let k = choose|k: int|
                            0 <= k < dirs@.take(i as int).len() && dirs@.take(i as int)[k] == d;
                        assert(dirs@.take(i as int + 1)[k] == d);
                    }
                    if d == dir {
                        assert(dirs@.take(i as int + 1)[i as int] == d);
                    }
                }
            }
            i = i + 1;
        }
        assert(dirs@.take(dirs.len() as int) =~= dirs@);
    }

    /// The glyph for the walls of the cell while its region is spent.
    pub fn get_symbol_exhausted(&self) -> (r: char)
        ensures
            r == exhausted_glyphs()[self.mask() as int],
    {
        let symbols: [char; 16] = [
            ' ', '╵', '╶', '└',
            '╷', '│', '┌', '├',
            '╴', '┘', '─', '┴',
            '┐', '┤', '┬', '┼',
        ];
        let w = self.wall_data;
        assert(w & 15 < 16) by (bit_vector);
        symbols[(self.wall_data & 15) as usize]
    }

    /// The glyph for the walls of the cell while its region is untouched.
    pub fn get_symbol_virgin(&self) -> (r: char)
        ensures
            r == virgin_glyphs()[self.mask() as int],
    {
        let symbols: [char; 16] = [
            ' ', '╹', '╺', '┗',
            '╻', '┃', '┏', '┣',
            '╸', '┛', '━', '┻',
            '┓', '┫', '┳', '╋',
        ];
        let w = self.wall_data;
        assert(w & 15 < 16) by (bit_vector);
        symbols[(self.wall_data & 15) as usize]
    }
}

impl Default for PuzzleCell {
    /// A cell of region 0 without occupant, hits or walls.
    fn default() -> (r: PuzzleCell)
        ensures
            r == (PuzzleCell { plant: None, hits: 0, region: 0, wall_data: 0 }),
    {
        PuzzleCell { plant: None, hits: 0, region: 0, wall_data: 0 }
    }
}

/// Changing the wall on one side of a cell changes that wall and nothing
/// else: neither another wall nor the occupant, the hits or the region.
pub proof fn lemma_set_wall(cell: PuzzleCell, dir: Direction, val: bool, other: Direction)
    ensures
        cell.spec_set_wall(dir, val).plant == cell.plant,
        cell.spec_set_wall(dir, val).hits == cell.hits,
        cell.spec_set_wall(dir, val).region == cell.region,
        cell.spec_set_wall(dir, val).spec_has_wall(other) == if other == dir {
            val
        } else {
            cell.spec_has_wall(other)
        },
{
    let w = cell.wall_data;
    let f = dir.spec_as_flag();
    let g = other.spec_as_flag();
    assert((((w | f) & 15) & g != 0) == (if g == f {
        true
    } else {
        (w & 15) & g != 0
    })) by (bit_vector)
        requires
            f == 1 || f == 2 || f == 4 || f == 8,
            g == 1 || g == 2 || g == 4 || g == 8,
    ;
    assert((((w & !f) & 15) & g != 0) == (if g == f {
        false
    } else {
        (w & 15) & g != 0
    })) by (bit_vector)
        requires
            f == 1 || f == 2 || f == 4 || f == 8,
            g == 1 || g == 2 || g == 4 || g == 8,
    ;
}

/// A cell whose walls were all taken down has no wall on any side.
pub proof fn lemma_clear_walls(cell: PuzzleCell)
    ensures
        cell.spec_clear_walls().mask() == 0,
        forall|d: Direction| !cell.spec_clear_walls().spec_has_wall(d),
{
    assert(0u8 & 15 == 0) by (bit_vector);
    assert forall|d: Direction| !cell.spec_clear_walls().spec_has_wall(d) by {
        let g = d.spec_as_flag();
        assert(0u8 & g == 0) by (bit_vector);
    }
}

/// The wall mask of a cell is the sum of the flags of its walled sides, so
/// it lies below 16 and two cells with the same walls have the same mask.
pub proof fn lemma_mask(cell: PuzzleCell)
    ensures
        cell.mask() < 16,
        cell.mask() == (if cell.spec_has_wall(Direction::North) {
            1int
        } else {
            0int
        }) + (if cell.spec_has_wall(Direction::East) {
            2int
        } else {
            0int
        }) + (if cell.spec_has_wall(Direction::South) {
            4int
        } else {
            0int
        }) + (if cell.spec_has_wall(Direction::West) {
            8int
        } else {
            0int
        }),
{
    let w = cell.wall_data;
    let m = w & 15;
    assert(m < 16 && m == (if m & 1 != 0 {
        1int
    } else {
        0int
    }) + (if m & 2 != 0 {
        2int
    } else {
        0int
    }) + (if m & 4 != 0 {
        4int
    } else {
        0int
    }) + (if m & 8 != 0 {
        8int
    } else {
        0int
    })) by (bit_vector)
        requires
            m == w & 15,
    ;
}

} // verus!
