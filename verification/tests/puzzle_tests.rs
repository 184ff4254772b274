use niwa_rs::puzzle::Plant;
use niwa_rs::puzzle::PuzzleCell;
use niwa_rs::puzzle::PuzzleGrid;
use niwa_rs::puzzle::PuzzleStatus;
use niwa_rs::util::Direction;
use niwa_rs::util::Grid;
use niwa_rs::util::GridIndex;

fn pos(x: u8, y: u8) -> GridIndex {
    GridIndex { x, y }
}

fn empty_puzzle(w: u8, h: u8) -> PuzzleGrid {
    PuzzleGrid { cells: Grid::of_default(pos(w, h)), regions: Vec::new() }
}

fn cell_of(puzzle: &PuzzleGrid, x: u8, y: u8) -> PuzzleCell {
    puzzle.cells.index(pos(x, y)).expect("a cell was set here")
}

fn walls_of(cell: &PuzzleCell) -> Vec<Direction> {
    Direction::all().iter().copied().filter(|&d| cell.has_wall(d)).collect()
}

fn walls_are_consistent(puzzle: &PuzzleGrid) -> bool {
    let size = puzzle.cells.size();
    for y in 0..size.y {
        for x in 0..size.x {
            if let Some(cell) = puzzle.cells.index(pos(x, y)) {
                for &dir in Direction::all() {
                    let neighbour = match pos(x, y).step(dir, size) {
                        Some(q) => *puzzle.cells.index(q),
                        None => None,
                    };
                    let open = match neighbour {
                        Some(other) => other.region == cell.region,
                        None => false,
                    };
                    if cell.has_wall(dir) == open {
                        return false;
                    }
                    if let Some(other) = neighbour {
                        if other.has_wall(dir.opposite()) != cell.has_wall(dir) {
                            return false;
                        }
                    }
                }
            }
        }
    }
    true
}

#[test]
fn status_starts_untouched() {
    assert_eq!(PuzzleStatus::default(), PuzzleStatus::Virgin);
}

#[test]
fn new_cell_has_no_hits_and_no_walls() {
    let cell = PuzzleCell::new(3, Some(Plant::Default));
    assert_eq!(cell.region, 3);
    assert_eq!(cell.plant, Some(Plant::Default));
    assert_eq!(cell.hits, 0);
    assert!(!cell.is_sprouted());
    assert!(walls_of(&cell).is_empty());
    let plain = PuzzleCell::default();
    assert_eq!(plain, PuzzleCell::new(0, None));
}

#[test]
fn sprouted_means_hit_at_least_once() {
    let mut cell = PuzzleCell::new(0, Some(Plant::Default));
    assert!(!cell.is_sprouted());
    cell.hits = 1;
    assert!(cell.is_sprouted());
    cell.hits = 255;
    assert!(cell.is_sprouted());
}

#[test]
fn set_wall_changes_one_side() {
    let mut cell = PuzzleCell::new(1, None);
    cell.set_wall(Direction::East, true);
    assert_eq!(walls_of(&cell), vec![Direction::East]);
    cell.set_wall(Direction::North, true);
    cell.set_wall(Direction::West, true);
    assert_eq!(walls_of(&cell), vec![Direction::North, Direction::East, Direction::West]);
    cell.set_wall(Direction::East, false);
    assert_eq!(walls_of(&cell), vec![Direction::North, Direction::West]);
    cell.set_wall(Direction::East, false);
    assert_eq!(walls_of(&cell), vec![Direction::North, Direction::West]);
    assert_eq!(cell.region, 1);
    assert_eq!(cell.hits, 0);
    assert_eq!(cell.plant, None);
}

#[test]
fn set_walls_replaces_all_walls() {
    let mut cell = PuzzleCell::new(0, None);
    cell.set_wall(Direction::North, true);
    cell.set_walls(&[Direction::South, Direction::West, Direction::South]);
    assert_eq!(walls_of(&cell), vec![Direction::South, Direction::West]);
    cell.set_walls(&[]);
    assert!(walls_of(&cell).is_empty());
    cell.set_walls(Direction::all());
    assert_eq!(walls_of(&cell).len(), 4);
}

#[test]
fn wall_mask_is_the_sum_of_the_flags() {
    let mut cell = PuzzleCell::new(0, None);
    cell.set_walls(&[Direction::East, Direction::West]);
    assert_eq!(cell.wall_data, 2 + 8);
    cell.set_walls(Direction::all());
    assert_eq!(cell.wall_data, 15);
}

#[test]
fn glyph_without_walls_is_open_and_with_all_walls_is_a_cross() {
    let mut cell = PuzzleCell::new(0, None);
    assert_eq!(cell.get_symbol_virgin(), ' ');
    assert_eq!(cell.get_symbol_exhausted(), ' ');
    cell.set_walls(Direction::all());
    assert_eq!(cell.get_symbol_virgin(), '╋');
    assert_eq!(cell.get_symbol_exhausted(), '┼');
}

#[test]
fn glyph_has_a_stroke_toward_each_wall() {
    let mut cell = PuzzleCell::new(0, None);
    cell.set_walls(&[Direction::North]);
    assert_eq!(cell.get_symbol_exhausted(), '╵');
    assert_eq!(cell.get_symbol_virgin(), '╹');
    cell.set_walls(&[Direction::East]);
    assert_eq!(cell.get_symbol_exhausted(), '╶');
    cell.set_walls(&[Direction::South]);
    assert_eq!(cell.get_symbol_exhausted(), '╷');
    cell.set_walls(&[Direction::West]);
    assert_eq!(cell.get_symbol_exhausted(), '╴');
    cell.set_walls(&[Direction::North, Direction::South]);
    assert_eq!(cell.get_symbol_exhausted(), '│');
    assert_eq!(cell.get_symbol_virgin(), '┃');
    cell.set_walls(&[Direction::East, Direction::West]);
    assert_eq!(cell.get_symbol_exhausted(), '─');
    cell.set_walls(&[Direction::North, Direction::East]);
    assert_eq!(cell.get_symbol_exhausted(), '└');
    cell.set_walls(&[Direction::East, Direction::South, Direction::West]);
    assert_eq!(cell.get_symbol_exhausted(), '┬');
    assert_eq!(cell.get_symbol_virgin(), '┳');
}

#[test]
fn glyph_tables_have_sixteen_entries_each_its_own() {
    let mut light = Vec::new();
    let mut heavy = Vec::new();
    for mask in 0u8..16 {
        let mut cell = PuzzleCell::new(0, None);
        let dirs: Vec<Direction> =
            Direction::all().iter().copied().filter(|d| mask & d.as_flag() != 0).collect();
        cell.set_walls(&dirs);
        assert_eq!(cell.wall_data, mask);
        light.push(cell.get_symbol_exhausted());
        heavy.push(cell.get_symbol_virgin());
    }
    for i in 0..16 {
        for j in 0..16 {
            if i != j {
                assert_ne!(light[i], light[j]);
                assert_ne!(heavy[i], heavy[j]);
            }
        }
    }
}

#[test]
fn set_cell_alone_is_walled_all_round() {
    let mut puzzle = empty_puzzle(3, 3);
    puzzle.set_cell(pos(1, 1), Some(PuzzleCell::new(0, None)));
    assert_eq!(walls_of(&cell_of(&puzzle, 1, 1)).len(), 4);
    assert_eq!(puzzle.regions, vec![PuzzleStatus::Virgin]);
}

#[test]
fn set_cell_same_region_opens_border() {
    let mut puzzle = empty_puzzle(4, 4);
    puzzle.set_cell(pos(3, 0), Some(PuzzleCell::new(0, None)));
    puzzle.set_cell(pos(2, 0), Some(PuzzleCell::new(0, None)));
    assert_eq!(
        walls_of(&cell_of(&puzzle, 3, 0)),
        vec![Direction::North, Direction::East, Direction::South]
    );
    assert_eq!(
        walls_of(&cell_of(&puzzle, 2, 0)),
        vec![Direction::North, Direction::South, Direction::West]
    );
    assert!(walls_are_consistent(&puzzle));
}

#[test]
fn set_cell_other_region_walls_border_on_both_sides() {
    let mut puzzle = empty_puzzle(4, 4);
    puzzle.set_cell(pos(1, 1), Some(PuzzleCell::new(0, None)));
    puzzle.set_cell(pos(1, 2), Some(PuzzleCell::new(1, None)));
    assert!(cell_of(&puzzle, 1, 1).has_wall(Direction::South));
    assert!(cell_of(&puzzle, 1, 2).has_wall(Direction::North));
    assert_eq!(puzzle.regions, vec![PuzzleStatus::Virgin, PuzzleStatus::Virgin]);
    assert!(walls_are_consistent(&puzzle));
}

#[test]
fn set_cell_puts_up_its_own_walls_afresh() {
    let mut puzzle = empty_puzzle(3, 1);
    puzzle.set_cell(pos(0, 0), Some(PuzzleCell::new(2, None)));
    let mut walled = PuzzleCell::new(2, Some(Plant::Default));
    walled.set_walls(Direction::all());
    walled.hits = 5;
    puzzle.set_cell(pos(1, 0), Some(walled));
    let set = cell_of(&puzzle, 1, 0);
    assert_eq!(walls_of(&set), vec![Direction::North, Direction::East, Direction::South]);
    assert_eq!(set.hits, 5);
    assert_eq!(set.plant, Some(Plant::Default));
    assert_eq!(set.region, 2);
    assert!(!cell_of(&puzzle, 0, 0).has_wall(Direction::East));
}

#[test]
fn set_cell_grows_regions_and_never_shrinks_them() {
    let mut puzzle = empty_puzzle(3, 3);
    puzzle.set_cell(pos(0, 0), Some(PuzzleCell::new(3, None)));
    assert_eq!(puzzle.regions.len(), 4);
    assert!(puzzle.regions.iter().all(|&s| s == PuzzleStatus::Virgin));
    puzzle.regions[3] = PuzzleStatus::Exhausted;
    puzzle.set_cell(pos(1, 0), Some(PuzzleCell::new(1, None)));
    assert_eq!(puzzle.regions.len(), 4);
    assert_eq!(puzzle.regions[3], PuzzleStatus::Exhausted);
    puzzle.set_cell(pos(0, 0), None);
    assert_eq!(puzzle.regions.len(), 4);
}

#[test]
fn set_cell_none_clears_and_walls_the_neighbours() {
    let mut puzzle = empty_puzzle(3, 3);
    puzzle.set_cell(pos(1, 1), Some(PuzzleCell::new(0, None)));
    puzzle.set_cell(pos(2, 1), Some(PuzzleCell::new(0, None)));
    puzzle.set_cell(pos(1, 2), Some(PuzzleCell::new(0, None)));
    assert!(!cell_of(&puzzle, 2, 1).has_wall(Direction::West));
    puzzle.set_cell(pos(1, 1), None);
    assert_eq!(*puzzle.cells.index(pos(1, 1)), None);
    assert!(cell_of(&puzzle, 2, 1).has_wall(Direction::West));
    assert!(cell_of(&puzzle, 1, 2).has_wall(Direction::North));
    assert!(walls_are_consistent(&puzzle));
}

#[test]
fn set_cell_touches_only_the_position_and_its_neighbours() {
    let mut puzzle = empty_puzzle(4, 4);
    for y in 0..4 {
        for x in 0..4 {
            puzzle.set_cell(pos(x, y), Some(PuzzleCell::new((x as usize + y as usize) % 3, None)));
        }
    }
    let before = puzzle.clone();
    puzzle.set_cell(pos(1, 1), Some(PuzzleCell::new(7, Some(Plant::Default))));
    for y in 0..4u8 {
        for x in 0..4u8 {
            let near = (x as i16 - 1).abs() + (y as i16 - 1).abs() <= 1;
            if !near {
                assert_eq!(puzzle.cells.index(pos(x, y)), before.cells.index(pos(x, y)));
            }
        }
    }
    assert!(walls_are_consistent(&puzzle));
}

#[test]
fn set_cell_keeps_walls_consistent_over_a_whole_grid() {
    let mut puzzle = empty_puzzle(5, 4);
    let regions = [0usize, 0, 1, 1, 2, 0, 3, 1, 1, 2, 0, 3, 3, 1, 2, 4, 4, 4, 2, 2];
    for (i, &region) in regions.iter().enumerate() {
        let at = pos((i % 5) as u8, (i / 5) as u8);
        puzzle.set_cell(at, Some(PuzzleCell::new(region, None)));
        assert!(walls_are_consistent(&puzzle));
    }
    puzzle.set_cell(pos(2, 2), Some(PuzzleCell::new(1, None)));
    assert!(walls_are_consistent(&puzzle));
    puzzle.set_cell(pos(0, 3), None);
    assert!(walls_are_consistent(&puzzle));
    assert_eq!(puzzle.regions.len(), 5);
}

#[test]
fn is_blocked_names_the_region_behind_the_wall() {
    let mut puzzle = empty_puzzle(3, 1);
    puzzle.set_cell(pos(0, 0), Some(PuzzleCell::new(4, None)));
    puzzle.set_cell(pos(1, 0), Some(PuzzleCell::new(4, None)));
    assert_eq!(puzzle.is_blocked(pos(0, 0), Direction::East), None);
    assert_eq!(puzzle.is_blocked(pos(0, 0), Direction::West), Some(4));
    assert_eq!(puzzle.is_blocked(pos(1, 0), Direction::East), Some(4));
    assert_eq!(puzzle.is_blocked(pos(2, 0), Direction::West), None);
}

#[test]
fn default_puzzle_is_empty() {
    let puzzle = PuzzleGrid::default();
    assert_eq!(puzzle.cells.size(), pos(0, 0));
    assert!(puzzle.regions.is_empty());
}
