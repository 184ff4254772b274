//! What an actor does on the grid: moving one step, and casting an effect
//! along a line.

use crate::puzzle::cell::PuzzleCell;
use crate::puzzle::cell::PuzzleStatus;
use crate::puzzle::grid::PuzzleGrid;
use crate::util::direction::Direction;
use crate::util::index::GridIndex;
use crate::util::traversal::line_seq;
use crate::world::Material;
use crate::world::Room;
use vstd::prelude::*;

verus! {

/// Whether an actor can stand at `pos`: the room has a tile there, nothing
/// stands on the tile, and no plant grows in the puzzle cell there.
pub open spec fn can_enter(room: &Room, puzzle: &PuzzleGrid, pos: GridIndex) -> bool {
    &&& room.tile_at(pos) matches Some(tile) && tile.prop is None
    &&& !(puzzle.cell_at(pos) matches Some(cell) && cell.plant is Some)
}

/// Where an actor at `actor_pos` stands after trying to move one step in
/// `dir`: on the neighbouring position if there is one inside the room
/// and it can be entered, else where it stood.
pub open spec fn move_target(
    dir: Direction,
    actor_pos: GridIndex,
    room: &Room,
    puzzle: &PuzzleGrid,
) -> GridIndex {
    match actor_pos.spec_step(dir, room.spec_size()) {
        Some(destination) => if can_enter(room, puzzle, destination) {
            destination
        } else {
            actor_pos
        },
        None => actor_pos,
    }
}

/// Moves the actor one step in `dir` if the room and the puzzle allow it,
/// and says whether it moved. A move that is not allowed leaves the actor
/// where it stood.
pub fn move_actor(dir: Direction, actor_pos: &mut GridIndex, room: &Room, puzzle: &PuzzleGrid) -> (moved:
    bool)
    ensures
        *final(actor_pos) == move_target(dir, *old(actor_pos), room, puzzle),
        moved == (*final(actor_pos) != *old(actor_pos)),
{
    match actor_pos.step(dir, room.size()) {
        Some(destination) => {
            let open_ground = room.tiles.bounds_check(destination) && match room.tiles.index(
                destination,
            ) {
                Some(tile) => tile.prop.is_none(),
                None => false,
            };
            let overgrown = puzzle.cells.bounds_check(destination) && match puzzle.cells.index(
                destination,
            ) {
                Some(cell) => cell.plant.is_some(),
                None => false,
            };
            if open_ground && !overgrown {
                *actor_pos = destination;
                true
            } else {
                false
            }
        },
        None => false,
    }
}

/// Whether an effect can pass over the tile at `pos`: the room has a tile
/// there, of grass or of dirt.
pub open spec fn passable(room: &Room, pos: GridIndex) -> bool {
    room.tile_at(pos) matches Some(tile) && (tile.material == Material::Grass || tile.material
        == Material::Dirt)
}

/// A cell after an effect has gone over it: a plant in it has taken one
/// more hit, the count staying at 255 once it is there; a cell without a
/// plant is as it was.
pub open spec fn struck(cell: Option<PuzzleCell>) -> Option<PuzzleCell> {
    match cell {
        Some(c) => if c.plant is Some {
            Some(
                PuzzleCell {
                    plant: c.plant,
                    hits: if c.hits < 255 {
                        (c.hits + 1) as u8
                    } else {
                        255u8
                    },
                    region: c.region,
                    wall_data: c.wall_data,
                },
            )
        } else {
            Some(c)
        },
        None => None,
    }
}

/// Whether an effect that travels in `dir` is absorbed at `pos`: there is
/// a cell, walled on the side that faces `dir`, of a region that is still
/// untouched.
pub open spec fn absorbs(puzzle: &PuzzleGrid, pos: GridIndex, dir: Direction) -> bool {
    puzzle.cell_at(pos) matches Some(cell) && cell.spec_has_wall(dir) && puzzle.regions@[cell.region as int]
        == PuzzleStatus::Virgin
}

/// The offset into `trace`, at `k` or later, at which an effect is
/// absorbed; nothing if it first comes to ground it cannot pass, or to the
/// end of the trace.
pub open spec fn absorbed_from(
    room: &Room,
    puzzle: &PuzzleGrid,
    dir: Direction,
    trace: Seq<GridIndex>,
    k: int,
) -> Option<int>
    decreases trace.len() - k,
{
    if k < 0 || k >= trace.len() {
        None
    } else if !passable(room, trace[k]) {
        None
    } else if absorbs(puzzle, trace[k], dir) {
        Some(k)
    } else {
        absorbed_from(room, puzzle, dir, trace, k + 1)
    }
}

/// Whether `after` is what an effect makes of `before` when it is
/// absorbed at offset `k` of `trace`: every cell up to and including that
/// offset was struck, the region of the cell at that offset is spent, and
/// nothing else has changed.
pub open spec fn is_cast_of(after: &PuzzleGrid, before: &PuzzleGrid, trace: Seq<GridIndex>, k: int) -> bool {
    &&& after.cells.spec_size() == before.cells.spec_size()
    &&& after.regions@ == before.regions@.update(
        before.cell_at(trace[k])->0.region as int,
        PuzzleStatus::Exhausted,
    )
    &&& forall|p: GridIndex| #[trigger]
        after.cell_at(p) == if trace.take(k + 1).contains(p) {
            struck(before.cell_at(p))
        } else {
            before.cell_at(p)
        }
}

/// Casts an effect from `actor_pos` in `dir` across the room. The effect
/// visits the positions of the line one by one, the actor's own first.
/// Ground that it cannot pass stops it, and so does the edge of the room:
/// the puzzle is then exactly as it was. A cell that absorbs it stops it
/// too: then every cell it went over, that one included, has been struck,
/// the region of that cell is spent, and the position of that cell is
/// returned.
pub fn cast_effect(dir: Direction, actor_pos: GridIndex, room: &Room, puzzle: &mut PuzzleGrid) -> (r:
    Option<GridIndex>)
    requires
        old(puzzle).wf(),
    ensures
        ({
            let trace = line_seq(actor_pos, dir, room.spec_size());
            match absorbed_from(room, old(puzzle), dir, trace, 0) {
                Some(k) => r == Some(trace[k]) && is_cast_of(final(puzzle), old(puzzle), trace, k),
                None => r is None && *final(puzzle) == *old(puzzle),
            }
        }),
        final(puzzle).wf(),
{
    let mut scratch = puzzle.clone();
    let mut walk = actor_pos.iter_line(dir, room.size());
    let ghost trace = walk@;
    let ghost mut k: int = 0;
    proof {
        puzzle.cells.lemma_view_len();
        scratch.cells.lemma_view_len();
    }
    loop
        invariant
            0 <= k <= trace.len(),
            trace == line_seq(actor_pos, dir, room.spec_size()),
            walk@ == trace.skip(k),
            *puzzle == *old(puzzle),
            puzzle.wf(),
            absorbed_from(room, puzzle, dir, trace, k) == absorbed_from(room, puzzle, dir, trace, 0),
            scratch.cells.spec_size() == puzzle.cells.spec_size(),
            scratch.regions@ == puzzle.regions@,
            forall|p: GridIndex| #[trigger]
                scratch.cell_at(p) == if trace.take(k).contains(p) {
                    struck(puzzle.cell_at(p))
                } else {
                    puzzle.cell_at(p)
                },
        decreases trace.len() - k,
    {
        let pos = match walk.next() {
            Some(pos) => pos,
            None => {
                return None;
            },
        };
        assert(pos == trace[k]);
        let solid = room.tiles.bounds_check(pos) && match room.tiles.index(pos) {
            Some(tile) => match tile.material {
                Material::Grass | Material::Dirt => true,
                _ => false,
            },
            None => false,
        };
        if !solid {
            return None;
        }
        proof {
            lemma_trace_distinct(actor_pos, dir, room.spec_size(), k);
            assert(trace.take(k + 1) =~= trace.take(k).push(pos));
            assert(scratch.cell_at(pos) == puzzle.cell_at(pos));
            assert forall|p: GridIndex| trace.take(k + 1).contains(p) <==> (trace.take(k).contains(p)
                || p == pos) by {
                if trace.take(k).contains(p) {
                    let j = choose|j: int| 0 <= j < k && trace.take(k)[j] == p;
                    assert(trace.take(k + 1)[j] == p);
                }
                if p == pos {
                    assert(trace.take(k + 1)[k] == p);
                }
            }
        }
        let ghost visited = scratch;
        if scratch.cells.bounds_check(pos) {
            match *scratch.cells.index(pos) {
                Some(cell) => {
                    let mut cell = cell;
                    if cell.plant.is_some() {
                        cell.hits = cell.hits.saturating_add(1);
                    }
                    assert(Some(cell) == struck(puzzle.cell_at(pos)));
                    let slot = scratch.cells.index_mut(pos);
                    *slot = Some(cell);
                    assert forall|p: GridIndex| #[trigger]
                        scratch.cell_at(p) == if trace.take(k + 1).contains(p) {
                            struck(puzzle.cell_at(p))
                        } else {
                            puzzle.cell_at(p)
                        } by {
                        if p != pos {
                            assert(scratch.cell_at(p) == visited.cell_at(p));
                        }
                    }
                    let ghost struck_cells = scratch;
                    if cell.has_wall(dir) {
                        match scratch.regions[cell.region] {
                            PuzzleStatus::Virgin => {
                                scratch.regions[cell.region] = PuzzleStatus::Exhausted;
                                proof {
                                    assert(absorbed_from(room, puzzle, dir, trace, k) == Some(k));
                                    assert forall|p: GridIndex| #[trigger]
                                        scratch.cell_at(p) == if trace.take(k + 1).contains(p) {
                                            struck(puzzle.cell_at(p))
                                        } else {
                                            puzzle.cell_at(p)
                                        } by {
                                        assert(scratch.cell_at(p) == struck_cells.cell_at(p));
                                    }
                                    assert(is_cast_of(&scratch, puzzle, trace, k));
                                    lemma_cast_keeps_wf(*puzzle, scratch, trace, k);
                                }
                                *puzzle = scratch;
                                return Some(pos);
                            },
                            _ => {},
                        }
                    }
                },
                None => {
                    assert(struck(puzzle.cell_at(pos)) == puzzle.cell_at(pos));
                },
            }
        } else {
            assert(struck(puzzle.cell_at(pos)) == puzzle.cell_at(pos));
        }
        assert forall|p: GridIndex| #[trigger]
            scratch.cell_at(p) == if trace.take(k + 1).contains(p) {
                struck(puzzle.cell_at(p))
            } else {
                puzzle.cell_at(p)
            } by {
            if p != pos && scratch.cells.spec_bounds_check(pos) {
                assert(scratch.cell_at(p) == visited.cell_at(p));
            }
        }
        proof {
            k = k + 1;
            assert(walk@ =~= trace.skip(k));
        }
    }
}

/// The positions of a line are all different: the one at offset `k` does
/// not occur before it.
pub proof fn lemma_trace_distinct(origin: GridIndex, dir: Direction, bound: GridIndex, k: int)
    requires
        0 <= k < line_seq(origin, dir, bound).len(),
    ensures
        !line_seq(origin, dir, bound).take(k).contains(line_seq(origin, dir, bound)[k]),
{
    let trace = line_seq(origin, dir, bound);
    if trace.take(k).contains(trace[k]) {
        let j = choose|j: int| 0 <= j < k && trace.take(k)[j] == trace[k];
        assert(trace[j] == trace[k]);
    }
}

/// An effect that is absorbed keeps every cell within the regions that
/// have a status.
pub proof fn lemma_cast_keeps_wf(before: PuzzleGrid, after: PuzzleGrid, trace: Seq<GridIndex>, k: int)
    requires
        before.wf(),
        0 <= k < trace.len(),
        before.cell_at(trace[k]) is Some,
        is_cast_of(&after, &before, trace, k),
    ensures
        after.wf(),
{
    assert forall|p: GridIndex| (#[trigger] after.cell_at(p)) is Some implies after.cell_at(
        p,
    )->0.region < after.regions@.len() by {
        assert(after.cell_at(p) == if trace.take(k + 1).contains(p) {
            struck(before.cell_at(p))
        } else {
            before.cell_at(p)
        });
        assert(before.cell_at(p) is Some);
        assert(after.cell_at(p)->0.region == before.cell_at(p)->0.region);
    }
}

/// An effect never brings a region back to the untouched state, and never
/// changes how many regions there are: the one region it can change goes
/// from untouched to spent.
pub proof fn lemma_cast_spends_one_region(
    before: PuzzleGrid,
    after: PuzzleGrid,
    trace: Seq<GridIndex>,
    k: int,
)
    requires
        before.wf(),
        before.cell_at(trace[k]) is Some,
        is_cast_of(&after, &before, trace, k),
    ensures
        after.regions@.len() == before.regions@.len(),
        after.regions@[before.cell_at(trace[k])->0.region as int] == PuzzleStatus::Exhausted,
        forall|i: int|
            0 <= i < before.regions@.len() && i != before.cell_at(trace[k])->0.region
                ==> #[trigger] after.regions@[i] == before.regions@[i],
{
}

/// Whether an effect that has come to offset `start` of `trace` goes on
/// to be absorbed at offset `k`: it is absorbed there, the ground there
/// can be passed, and at every offset before it the ground can be passed
/// and nothing absorbs the effect.
pub open spec fn reaches(
    room: &Room,
    puzzle: &PuzzleGrid,
    dir: Direction,
    trace: Seq<GridIndex>,
    start: int,
    k: int,
) -> bool {
    &&& 0 <= start <= k < trace.len()
    &&& passable(room, trace[k])
    &&& absorbs(puzzle, trace[k], dir)
    &&& forall|j: int|
        start <= j < k ==> passable(room, #[trigger] trace[j]) && !absorbs(puzzle, trace[j], dir)
}

/// An effect is absorbed at the first cell that absorbs it, provided that
/// it can pass the ground up to and including that cell; otherwise it is
/// not absorbed at all.
pub proof fn lemma_absorbed_first(
    room: &Room,
    puzzle: &PuzzleGrid,
    dir: Direction,
    trace: Seq<GridIndex>,
    start: int,
    k: int,
)
    requires
        0 <= start,
    ensures
        absorbed_from(room, puzzle, dir, trace, start) == Some(k) <==> reaches(
            room,
            puzzle,
            dir,
            trace,
            start,
            k,
        ),
    decreases trace.len() - start,
{
    if start < trace.len() && passable(room, trace[start]) && !absorbs(puzzle, trace[start], dir) {
        lemma_absorbed_first(room, puzzle, dir, trace, start + 1, k);
        if reaches(room, puzzle, dir, trace, start, k) {
            assert(reaches(room, puzzle, dir, trace, start + 1, k));
        }
        if reaches(room, puzzle, dir, trace, start + 1, k) {
            assert(reaches(room, puzzle, dir, trace, start, k));
        }
    } else if start < trace.len() {
        if reaches(room, puzzle, dir, trace, start, k) && k != start {
            assert(passable(room, trace[start]) && !absorbs(puzzle, trace[start], dir));
        }
    }
}

} // verus!
