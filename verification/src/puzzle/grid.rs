use crate::puzzle::cell::PuzzleCell;
use crate::puzzle::cell::PuzzleId;
use crate::puzzle::cell::PuzzleStatus;
use crate::puzzle::cell::lemma_set_wall;
use crate::util::direction::Direction;
use crate::util::grid::Grid;
use crate::util::index::GridIndex;
use crate::util::index::lemma_step_within;
use vstd::prelude::*;

verus! {

/// Whether the border between two neighbouring places is walled: it is
/// open only between two cells of the same region.
pub open spec fn border_walled(a: Option<PuzzleCell>, b: Option<PuzzleCell>) -> bool {
    !(a is Some && b is Some && a->0.region == b->0.region)
}

/// The direction in which `p` is the neighbour of `pos` inside `size`, if
/// it is a neighbour at all.
pub open spec fn facing(pos: GridIndex, p: GridIndex, size: GridIndex) -> Option<Direction> {
    if pos.spec_step(Direction::North, size) == Some(p) {
        Some(Direction::North)
    } else if pos.spec_step(Direction::East, size) == Some(p) {
        Some(Direction::East)
    } else if pos.spec_step(Direction::South, size) == Some(p) {
        Some(Direction::South)
    } else if pos.spec_step(Direction::West, size) == Some(p) {
        Some(Direction::West)
    } else {
        None
    }
}

/// The overlay of puzzle cells on a room, with the status of each region.
pub struct PuzzleGrid {
    pub cells: Grid<Option<PuzzleCell>>,
    pub regions: Vec<PuzzleStatus>,
}

impl PuzzleGrid {
    /// The cell at `pos`; none where the overlay is empty or `pos` lies
    /// outside it.
    pub open spec fn cell_at(&self, pos: GridIndex) -> Option<PuzzleCell> {
        if self.cells.spec_bounds_check(pos) {
            self.cells.spec_index(pos)
        } else {
            None
        }
    }

    /// The cell next to `pos` in `dir`, if there is one.
    pub open spec fn neighbor(&self, pos: GridIndex, dir: Direction) -> Option<PuzzleCell> {
        match pos.spec_step(dir, self.cells.spec_size()) {
            Some(q) => self.cell_at(q),
            None => None,
        }
    }

    /// Every cell belongs to a region that has a status.
    pub open spec fn wf(&self) -> bool {
        forall|pos: GridIndex|
            (#[trigger] self.cell_at(pos)) matches Some(c) ==> c.region < self.regions@.len()
    }

    /// Every wall of every cell is where the regions ask for it: a side is
    /// open exactly where the neighbour belongs to the same region.
    pub open spec fn walls_consistent(&self) -> bool {
        forall|pos: GridIndex, dir: Direction|
            #![trigger self.neighbor(pos, dir)]
            self.cell_at(pos) matches Some(c) ==> c.spec_has_wall(dir) == border_walled(
                Some(c),
                self.neighbor(pos, dir),
            )
    }

    pub open spec fn spec_is_blocked(&self, pos: GridIndex, dir: Direction) -> Option<PuzzleId> {
        match self.cell_at(pos) {
            Some(c) => if c.spec_has_wall(dir) {
                Some(c.region)
            } else {
                None
            },
            None => None,
        }
    }

    /// Whether `set_cell(pos, new_cell)` walls the side of `pos` that
    /// faces `dir`.
    pub open spec fn wall_toward(
        &self,
        pos: GridIndex,
        new_cell: Option<PuzzleCell>,
        dir: Direction,
    ) -> bool {
        border_walled(new_cell, self.neighbor(pos, dir))
    }

    /// What `set_cell(pos, new_cell)` has made of `new_cell` once it has
    /// dealt with the first `n` directions.
    pub open spec fn walled(
        &self,
        pos: GridIndex,
        new_cell: Option<PuzzleCell>,
        n: int,
    ) -> Option<PuzzleCell> {
        match new_cell {
            None => None,
            Some(c) => {
                let c1 = if n > 0 {
                    c.spec_set_wall(
                        Direction::North,
                        self.wall_toward(pos, new_cell, Direction::North),
                    )
                } else {
                    c
                };
                let c2 = if n > 1 {
                    c1.spec_set_wall(Direction::East, self.wall_toward(pos, new_cell, Direction::East))
                } else {
                    c1
                };
                let c3 = if n > 2 {
                    c2.spec_set_wall(
                        Direction::South,
                        self.wall_toward(pos, new_cell, Direction::South),
                    )
                } else {
                    c2
                };
                let c4 = if n > 3 {
                    c3.spec_set_wall(Direction::West, self.wall_toward(pos, new_cell, Direction::West))
                } else {
                    c3
                };
                Some(c4)
            },
        }
    }

    /// What `set_cell(pos, new_cell)` has made of the cell at `p`, a
    /// position other than `pos`, once it has dealt with the first `n`
    /// directions: a neighbour in one of them has the wall that faces
    /// `pos` put up or taken down.
    pub open spec fn touched(
        &self,
        pos: GridIndex,
        new_cell: Option<PuzzleCell>,
        n: int,
        p: GridIndex,
    ) -> Option<PuzzleCell> {
        match (facing(pos, p, self.cells.spec_size()), self.cell_at(p)) {
            (Some(d), Some(c)) => if d.ordinal() < n {
                Some(c.spec_set_wall(d.spec_opposite(), self.wall_toward(pos, new_cell, d)))
            } else {
                Some(c)
            },
            _ => self.cell_at(p),
        }
    }

    /// The cell at `p` after `set_cell(pos, new_cell)`.
    pub open spec fn after_set_cell(
        &self,
        pos: GridIndex,
        new_cell: Option<PuzzleCell>,
        p: GridIndex,
    ) -> Option<PuzzleCell> {
        if !self.cells.spec_bounds_check(p) {
            None
        } else if p == pos {
            self.walled(pos, new_cell, 4)
        } else {
            self.touched(pos, new_cell, 4, p)
        }
    }

    /// The status list after a cell of `new_cell`'s region has been set:
    /// grown by untouched regions up to that region, never shortened.
    pub open spec fn grown_regions(&self, new_cell: Option<PuzzleCell>) -> Seq<PuzzleStatus> {
        match new_cell {
            Some(c) if c.region >= self.regions@.len() => self.regions@ + Seq::new(
                (c.region + 1 - self.regions@.len()) as nat,
                |i: int| PuzzleStatus::Virgin,
            ),
            _ => self.regions@,
        }
    }

    /// Whether this overlay is what `set_cell(pos, new_cell)` makes of
    /// `before`.
    pub open spec fn is_set_cell_of(
        &self,
        before: &PuzzleGrid,
        pos: GridIndex,
        new_cell: Option<PuzzleCell>,
    ) -> bool {
        &&& self.cells.spec_size() == before.cells.spec_size()
        &&& self.regions@ == before.grown_regions(new_cell)
        &&& forall|p: GridIndex| #[trigger]
            self.cell_at(p) == before.after_set_cell(pos, new_cell, p)
    }

    /// Puts `new_cell` at `pos`, or clears `pos` if there is none. The
    /// walls of the new cell are put up afresh: a side is left open only
    /// where the neighbour is a cell of the same region. Each neighbouring
    /// cell has the wall on its side toward `pos` put up or taken down to
    /// match. No other cell changes, and the status list grows, by
    /// untouched regions, just enough to hold the region of the new cell.
    ///
    /// `pos` has to address a cell of the overlay, and the region of the
    /// new cell has to lie below the largest index there is, so that the
    /// status list can reach it.
    pub fn set_cell(&mut self, pos: GridIndex, new_cell: Option<PuzzleCell>)
        requires
            old(self).cells.spec_bounds_check(pos),
            new_cell matches Some(c) ==> c.region < usize::MAX,
        ensures
            final(self).is_set_cell_of(old(self), pos, new_cell),
            old(self).wf() ==> final(self).wf(),
            old(self).walls_consistent() ==> final(self).walls_consistent(),
    {
        let ghost given = new_cell;
        let mut new_cell = new_cell;
        match new_cell {
            Some(cell) => {
                if cell.region >= self.regions.len() {
                    let additional = cell.region - self.regions.len() + 1;
                    self.regions.reserve(additional);
                    let mut k: usize = 0;
                    while k < additional
                        invariant
                            k <= additional,
                            self.cells == old(self).cells,
                            self.regions@ == old(self).regions@ + Seq::new(
                                k as nat,
                                |i: int| PuzzleStatus::Virgin,
                            ),
                        decreases additional - k,
                    {
                        self.regions.push(PuzzleStatus::default());
                        k = k + 1;
                        assert(self.regions@ =~= old(self).regions@ + Seq::new(
                            k as nat,
                            |i: int| PuzzleStatus::Virgin,
                        ));
                    }
                }
            },
            None => {},
        }
        assert(self.regions@ =~= old(self).grown_regions(given));
        let size = self.cells.size();
        let dirs = Direction::all();
        let mut i: usize = 0;
        while i < dirs.len()
            invariant
                i <= 4,
                dirs@ == seq![Direction::North, Direction::East, Direction::South, Direction::West],
                size == old(self).cells.spec_size(),
                self.cells.spec_size() == size,
                self.cells.spec_bounds_check(pos),
                self.regions@ == old(self).grown_regions(given),
                new_cell == old(self).walled(pos, given, i as int),
                forall|p: GridIndex|
                    old(self).cells.spec_bounds_check(p) ==> #[trigger] self.cells.spec_index(p)
                        == old(self).touched(pos, given, i as int, p),
            decreases 4 - i,
        {
            let dir = dirs[i];
            let mut wall = true;
            match pos.step(dir, size) {
                Some(adjacent_pos) => {
                    proof {
                        lemma_step_within(pos, dir, size);
                    }
                    let slot = self.cells.index_mut(adjacent_pos);
                    match slot {
                        Some(adjacent_cell) => {
                            match new_cell {
                                Some(cell) => {
                                    if cell.region == adjacent_cell.region {
                                        wall = false;
                                    }
                                },
                                None => {},
                            }
                            adjacent_cell.set_wall(dir.opposite(), wall);
                        },
                        None => {},
                    }
                },
                None => {},
            }
            match &mut new_cell {
                Some(cell) => {
                    cell.set_wall(dir, wall);
                },
                None => {},
            }
            i = i + 1;
        }
        let slot = self.cells.index_mut(pos);
        *slot = new_cell;
        proof {
            assert forall|p: GridIndex| #[trigger]
                self.cell_at(p) == old(self).after_set_cell(pos, given, p) by {}
            if old(self).wf() {
                lemma_set_cell_keeps_wf(*old(self), *self, pos, given);
            }
            if old(self).walls_consistent() {
                lemma_set_cell_keeps_walls(*old(self), *self, pos, given);
            }
        }
    }

    /// The region of the cell at `pos` if that cell is walled on the side
    /// that faces `dir`; nothing if the side is open or there is no cell.
    #[verifier::when_used_as_spec(spec_is_blocked)]
    pub fn is_blocked(&self, pos: GridIndex, dir: Direction) -> (r: Option<PuzzleId>)
        requires
            self.cells.spec_bounds_check(pos),
        ensures
            r == self.spec_is_blocked(pos, dir),
    {
        match self.cells.index(pos) {
            Some(cell) => if cell.has_wall(dir) {
                Some(cell.region)
            } else {
                None
            },
            None => None,
        }
    }
}

impl Clone for PuzzleGrid {
    /// An overlay with the same cells and the same status list.
    fn clone(&self) -> (r: PuzzleGrid)
        ensures
            r.cells.spec_size() == self.cells.spec_size(),
            r.cells@ == self.cells@,
            r.regions@ == self.regions@,
    {
        let cells = self.cells.clone();
        let regions = self.regions.clone();
        proof {
            self.cells.lemma_view_len();
            cells.lemma_view_len();
            assert(cells@ =~= self.cells@);
            assert(regions@ =~= self.regions@);
        }
        PuzzleGrid { cells, regions }
    }
}

impl Default for PuzzleGrid {
    /// The overlay without cells and without regions.
    fn default() -> (r: PuzzleGrid)
        ensures
            r.cells.spec_size() == (GridIndex { x: 0, y: 0 }),
            r.regions@.len() == 0,
    {
        PuzzleGrid { cells: Grid::default(), regions: Vec::new() }
    }
}

/// Setting a cell keeps every cell within the regions that have a status.
pub proof fn lemma_set_cell_keeps_wf(
    before: PuzzleGrid,
    after: PuzzleGrid,
    pos: GridIndex,
    new_cell: Option<PuzzleCell>,
)
    requires
        after.is_set_cell_of(&before, pos, new_cell),
        before.wf(),
    ensures
        after.wf(),
{
    assert forall|p: GridIndex| (#[trigger] after.cell_at(p)) is Some implies after.cell_at(
        p,
    )->0.region < after.regions@.len() by {
        assert(after.cell_at(p) == before.after_set_cell(pos, new_cell, p));
        if p != pos {
            assert(before.cell_at(p) is Some);
        }
    }
}

/// What setting a cell does to the borders of the position it writes:
/// on each side the new cell, if there is one, and the neighbour, if there
/// is one, carry the same wall, and the side is open exactly where both
/// are cells of the same region. Occupant, hits and region of the new
/// cell and of its neighbours are kept.
pub proof fn lemma_set_cell_borders(
    before: PuzzleGrid,
    after: PuzzleGrid,
    pos: GridIndex,
    new_cell: Option<PuzzleCell>,
    dir: Direction,
)
    requires
        after.is_set_cell_of(&before, pos, new_cell),
        before.cells.spec_bounds_check(pos),
    ensures
        new_cell is Some <==> after.cell_at(pos) is Some,
        new_cell matches Some(c) ==> {
            &&& after.cell_at(pos)->0.plant == c.plant
            &&& after.cell_at(pos)->0.hits == c.hits
            &&& after.cell_at(pos)->0.region == c.region
            &&& after.cell_at(pos)->0.spec_has_wall(dir) == border_walled(
                new_cell,
                before.neighbor(pos, dir),
            )
        },
        before.neighbor(pos, dir) is Some <==> after.neighbor(pos, dir) is Some,
        before.neighbor(pos, dir) matches Some(n) ==> {
            &&& after.neighbor(pos, dir)->0.plant == n.plant
            &&& after.neighbor(pos, dir)->0.hits == n.hits
            &&& after.neighbor(pos, dir)->0.region == n.region
            &&& after.neighbor(pos, dir)->0.spec_has_wall(dir.spec_opposite()) == border_walled(
                new_cell,
                before.neighbor(pos, dir),
            )
            &&& forall|side: Direction|
                side != dir.spec_opposite() ==> after.neighbor(pos, dir)->0.spec_has_wall(side)
                    == n.spec_has_wall(side)
        },
{
    let size = before.cells.spec_size();
    assert(after.cell_at(pos) == before.after_set_cell(pos, new_cell, pos));
    if let Some(c) = new_cell {
        let w = |d: Direction| before.wall_toward(pos, new_cell, d);
        let c1 = c.spec_set_wall(Direction::North, w(Direction::North));
        let c2 = c1.spec_set_wall(Direction::East, w(Direction::East));
        let c3 = c2.spec_set_wall(Direction::South, w(Direction::South));
        let c4 = c3.spec_set_wall(Direction::West, w(Direction::West));
        lemma_set_wall(c, Direction::North, w(Direction::North), dir);
        lemma_set_wall(c1, Direction::East, w(Direction::East), dir);
        lemma_set_wall(c2, Direction::South, w(Direction::South), dir);
        lemma_set_wall(c3, Direction::West, w(Direction::West), dir);
        assert(after.cell_at(pos) == Some(c4));
    }
    if let Some(q) = pos.spec_step(dir, size) {
        lemma_step_within(pos, dir, size);
        assert(after.cell_at(q) == before.after_set_cell(pos, new_cell, q));
        assert(facing(pos, q, size) == Some(dir));
        if let Some(n) = before.cell_at(q) {
            assert forall|side: Direction|
                after.cell_at(q)->0.spec_has_wall(side) == if side == dir.spec_opposite() {
                    border_walled(new_cell, before.neighbor(pos, dir))
                } else {
                    n.spec_has_wall(side)
                } by {
                lemma_set_wall(
                    n,
                    dir.spec_opposite(),
                    before.wall_toward(pos, new_cell, dir),
                    side,
                );
            }
        }
    }
}

/// Setting a cell leaves every cell alone that is neither at the written
/// position nor next to it.
pub proof fn lemma_set_cell_elsewhere(
    before: PuzzleGrid,
    after: PuzzleGrid,
    pos: GridIndex,
    new_cell: Option<PuzzleCell>,
    p: GridIndex,
)
    requires
        after.is_set_cell_of(&before, pos, new_cell),
        p != pos,
        facing(pos, p, before.cells.spec_size()) is None,
    ensures
        after.cell_at(p) == before.cell_at(p),
{
    assert(after.cell_at(p) == before.after_set_cell(pos, new_cell, p));
}

/// Setting a cell keeps the walls of every cell where the regions ask for
/// them.
pub proof fn lemma_set_cell_keeps_walls(
    before: PuzzleGrid,
    after: PuzzleGrid,
    pos: GridIndex,
    new_cell: Option<PuzzleCell>,
)
    requires
        after.is_set_cell_of(&before, pos, new_cell),
        before.cells.spec_bounds_check(pos),
        before.walls_consistent(),
    ensures
        after.walls_consistent(),
{
    let size = before.cells.spec_size();
    assert forall|p: GridIndex, dir: Direction|
        #![trigger after.neighbor(p, dir)]
        after.cell_at(p) is Some implies after.cell_at(p)->0.spec_has_wall(dir) == border_walled(
        after.cell_at(p),
        after.neighbor(p, dir),
    ) by {
        let c = after.cell_at(p)->0;
        assert(before.cells.spec_bounds_check(p));
        if p == pos {
            lemma_set_cell_borders(before, after, pos, new_cell, dir);
        } else {
            // The cell at `p` was there before, with the same region.
            assert(after.cell_at(p) == before.after_set_cell(pos, new_cell, p));
            let old_c = before.cell_at(p)->0;
            assert(before.neighbor(p, dir) == before.neighbor(p, dir));
            assert(old_c.spec_has_wall(dir) == border_walled(Some(old_c), before.neighbor(p, dir)));
            match facing(pos, p, size) {
                Some(d) => {
                    lemma_set_cell_borders(before, after, pos, new_cell, d);
                    lemma_step_within(pos, d, size);
                    assert(pos.spec_step(d, size) == Some(p));
                    if dir == d.spec_opposite() {
                        assert(p.spec_step(dir, size) == Some(pos));
                    } else {
                        lemma_neighbor_kind(before, after, pos, new_cell, p, dir);
                    }
                },
                None => {
                    lemma_neighbor_kind(before, after, pos, new_cell, p, dir);
                },
            }
        }
    }
}

/// Setting a cell at `pos` keeps, for every neighbour of a position other
/// than `pos` that is not `pos` itself, whether there is a cell and which
/// region it belongs to.
proof fn lemma_neighbor_kind(
    before: PuzzleGrid,
    after: PuzzleGrid,
    pos: GridIndex,
    new_cell: Option<PuzzleCell>,
    p: GridIndex,
    dir: Direction,
)
    requires
        after.is_set_cell_of(&before, pos, new_cell),
        p.spec_step(dir, before.cells.spec_size()) != Some(pos),
    ensures
        before.neighbor(p, dir) is Some <==> after.neighbor(p, dir) is Some,
        before.neighbor(p, dir) matches Some(n) ==> after.neighbor(p, dir)->0.region == n.region,
        border_walled(after.cell_at(p), after.neighbor(p, dir)) == border_walled(
            after.cell_at(p),
            before.neighbor(p, dir),
        ),
{
    if let Some(q) = p.spec_step(dir, before.cells.spec_size()) {
        assert(after.cell_at(q) == before.after_set_cell(pos, new_cell, q));
    }
}

/// Two cells set next to each other, one after the other, have the border
/// between them open on both sides if they are of the same region, and
/// walled on both sides if they are not.
pub proof fn lemma_adjacent_cells(
    start: PuzzleGrid,
    between: PuzzleGrid,
    end: PuzzleGrid,
    first_pos: GridIndex,
    first: PuzzleCell,
    dir: Direction,
    second_pos: GridIndex,
    second: PuzzleCell,
)
    requires
        start.cells.spec_bounds_check(first_pos),
        between.is_set_cell_of(&start, first_pos, Some(first)),
        first_pos.spec_step(dir, start.cells.spec_size()) == Some(second_pos),
        end.is_set_cell_of(&between, second_pos, Some(second)),
    ensures
        end.cell_at(first_pos) is Some,
        end.cell_at(second_pos) is Some,
        end.cell_at(first_pos)->0.spec_has_wall(dir) == (first.region != second.region),
        end.cell_at(second_pos)->0.spec_has_wall(dir.spec_opposite()) == (first.region
            != second.region),
{
    let size = start.cells.spec_size();
    lemma_step_within(first_pos, dir, size);
    lemma_set_cell_borders(start, between, first_pos, Some(first), dir);
    assert(second_pos.spec_step(dir.spec_opposite(), size) == Some(first_pos));
    lemma_set_cell_borders(between, end, second_pos, Some(second), dir.spec_opposite());
    assert(between.neighbor(second_pos, dir.spec_opposite()) == between.cell_at(first_pos));
    assert(end.neighbor(second_pos, dir.spec_opposite()) == end.cell_at(first_pos));
}

/// Setting a cell keeps the status of every region that had one: the
/// status list only ever grows, by untouched regions at its end, and then
/// just far enough to hold the region of the new cell.
pub proof fn lemma_set_cell_keeps_status(
    before: PuzzleGrid,
    after: PuzzleGrid,
    pos: GridIndex,
    new_cell: Option<PuzzleCell>,
)
    requires
        after.is_set_cell_of(&before, pos, new_cell),
    ensures
        after.regions@.len() >= before.regions@.len(),
        new_cell matches Some(c) ==> after.regions@.len() == if c.region < before.regions@.len() {
            before.regions@.len() as int
        } else {
            c.region + 1
        },
        new_cell is None ==> after.regions@ == before.regions@,
        forall|i: int|
            0 <= i < after.regions@.len() ==> #[trigger] after.regions@[i] == if i
                < before.regions@.len() {
                before.regions@[i]
            } else {
                PuzzleStatus::Virgin
            },
{
}

} // verus!
