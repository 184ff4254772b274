use niwa_rs::actions::cast_effect;
use niwa_rs::actions::move_actor;
use niwa_rs::puzzle::Plant;
use niwa_rs::puzzle::PuzzleCell;
use niwa_rs::puzzle::PuzzleGrid;
use niwa_rs::puzzle::PuzzleStatus;
use niwa_rs::util::Direction;
use niwa_rs::util::Grid;
use niwa_rs::util::GridIndex;
use niwa_rs::world::Material;
use niwa_rs::world::Prop;
use niwa_rs::world::Room;
use niwa_rs::world::Tile;

fn p(x: u8, y: u8) -> GridIndex {
    GridIndex { x, y }
}

fn ground(material: Material) -> Option<Tile> {
    Some(Tile { material, prop: None, elevation: 0 })
}

fn meadow(w: u8, h: u8) -> Room {
    Room { tiles: Grid::of(p(w, h), ground(Material::Grass)) }
}

fn rocky_meadow() -> Room {
    let mut room = meadow(4, 4);
    for at in [p(1, 0), p(3, 3)] {
        *room.tiles.index_mut(at) =
            Some(Tile { material: Material::Grass, prop: Some(Prop::Rock), elevation: 0 });
    }
    room
}

fn no_puzzle(w: u8, h: u8) -> PuzzleGrid {
    PuzzleGrid { cells: Grid::of_default(p(w, h)), regions: Vec::new() }
}

fn same_puzzle(a: &PuzzleGrid, b: &PuzzleGrid) -> bool {
    if a.cells.size() != b.cells.size() || a.regions != b.regions {
        return false;
    }
    let size = a.cells.size();
    for y in 0..size.y {
        for x in 0..size.x {
            if a.cells.index(p(x, y)) != b.cells.index(p(x, y)) {
                return false;
            }
        }
    }
    true
}

#[test]
fn room_size_is_the_size_of_its_tiles() {
    assert_eq!(meadow(4, 3).size(), p(4, 3));
}

#[test]
fn move_into_rock_is_rejected() {
    let room = rocky_meadow();
    let puzzle = no_puzzle(4, 4);
    let mut actor = p(0, 0);
    for _ in 0..4 {
        assert!(!move_actor(Direction::East, &mut actor, &room, &puzzle));
        assert_eq!(actor, p(0, 0));
    }
}

#[test]
fn move_onto_open_ground_succeeds() {
    let room = rocky_meadow();
    let puzzle = no_puzzle(4, 4);
    let mut actor = p(0, 0);
    assert!(move_actor(Direction::South, &mut actor, &room, &puzzle));
    assert_eq!(actor, p(0, 1));
    assert!(move_actor(Direction::East, &mut actor, &room, &puzzle));
    assert_eq!(actor, p(1, 1));
    assert!(!move_actor(Direction::North, &mut actor, &room, &puzzle));
    assert_eq!(actor, p(1, 1));
}

#[test]
fn move_off_the_edge_is_rejected() {
    let room = meadow(2, 2);
    let puzzle = no_puzzle(2, 2);
    let mut actor = p(0, 0);
    assert!(!move_actor(Direction::North, &mut actor, &room, &puzzle));
    assert!(!move_actor(Direction::West, &mut actor, &room, &puzzle));
    assert_eq!(actor, p(0, 0));
    let mut actor = p(1, 1);
    assert!(!move_actor(Direction::South, &mut actor, &room, &puzzle));
    assert!(!move_actor(Direction::East, &mut actor, &room, &puzzle));
    assert_eq!(actor, p(1, 1));
}

#[test]
fn move_into_void_is_rejected() {
    let mut room = meadow(3, 1);
    *room.tiles.index_mut(p(1, 0)) = None;
    let puzzle = no_puzzle(3, 1);
    let mut actor = p(0, 0);
    assert!(!move_actor(Direction::East, &mut actor, &room, &puzzle));
    assert_eq!(actor, p(0, 0));
}

#[test]
fn move_into_a_plant_is_rejected_but_a_bare_cell_is_entered() {
    let room = meadow(3, 2);
    let mut puzzle = no_puzzle(3, 2);
    puzzle.set_cell(p(1, 0), Some(PuzzleCell::new(0, Some(Plant::Default))));
    puzzle.set_cell(p(0, 1), Some(PuzzleCell::new(0, None)));
    let mut actor = p(0, 0);
    assert!(!move_actor(Direction::East, &mut actor, &room, &puzzle));
    assert_eq!(actor, p(0, 0));
    assert!(move_actor(Direction::South, &mut actor, &room, &puzzle));
    assert_eq!(actor, p(0, 1));
}

#[test]
fn move_over_water_and_stone_is_allowed_where_nothing_stands() {
    let mut room = meadow(3, 1);
    *room.tiles.index_mut(p(1, 0)) = ground(Material::Water);
    *room.tiles.index_mut(p(2, 0)) = ground(Material::Stone);
    let puzzle = no_puzzle(3, 1);
    let mut actor = p(0, 0);
    assert!(move_actor(Direction::East, &mut actor, &room, &puzzle));
    assert!(move_actor(Direction::East, &mut actor, &room, &puzzle));
    assert_eq!(actor, p(2, 0));
}

#[test]
fn move_where_the_puzzle_is_smaller_than_the_room() {
    let room = meadow(3, 1);
    let puzzle = no_puzzle(1, 1);
    let mut actor = p(0, 0);
    assert!(move_actor(Direction::East, &mut actor, &room, &puzzle));
    assert_eq!(actor, p(1, 0));
}

#[test]
fn cast_is_absorbed_by_a_wall_of_an_untouched_region() {
    let room = meadow(5, 1);
    let mut puzzle = no_puzzle(5, 1);
    puzzle.set_cell(p(2, 0), Some(PuzzleCell::new(0, Some(Plant::Default))));
    puzzle.set_cell(p(3, 0), Some(PuzzleCell::new(1, Some(Plant::Default))));
    puzzle.set_cell(p(4, 0), Some(PuzzleCell::new(1, Some(Plant::Default))));
    let before = puzzle.clone();
    let stop = cast_effect(Direction::East, p(0, 0), &room, &mut puzzle);
    assert_eq!(stop, Some(p(2, 0)));
    assert_eq!(puzzle.regions, vec![PuzzleStatus::Exhausted, PuzzleStatus::Virgin]);
    let hit = puzzle.cells.index(p(2, 0)).unwrap();
    assert_eq!(hit.hits, 1);
    assert!(hit.is_sprouted());
    assert_eq!(hit.wall_data, before.cells.index(p(2, 0)).unwrap().wall_data);
    assert_eq!(puzzle.cells.index(p(3, 0)), before.cells.index(p(3, 0)));
    assert_eq!(puzzle.cells.index(p(4, 0)), before.cells.index(p(4, 0)));
    assert_eq!(puzzle.cells.index(p(0, 0)), &None);
}

#[test]
fn cast_passes_a_spent_region_and_is_absorbed_by_the_next() {
    let room = meadow(5, 1);
    let mut puzzle = no_puzzle(5, 1);
    puzzle.set_cell(p(1, 0), Some(PuzzleCell::new(0, Some(Plant::Default))));
    puzzle.set_cell(p(3, 0), Some(PuzzleCell::new(1, Some(Plant::Default))));
    assert_eq!(cast_effect(Direction::East, p(0, 0), &room, &mut puzzle), Some(p(1, 0)));
    assert_eq!(puzzle.regions, vec![PuzzleStatus::Exhausted, PuzzleStatus::Virgin]);
    assert_eq!(cast_effect(Direction::East, p(0, 0), &room, &mut puzzle), Some(p(3, 0)));
    assert_eq!(puzzle.regions, vec![PuzzleStatus::Exhausted, PuzzleStatus::Exhausted]);
    assert_eq!(puzzle.cells.index(p(1, 0)).unwrap().hits, 2);
    assert_eq!(puzzle.cells.index(p(3, 0)).unwrap().hits, 1);
    let before = puzzle.clone();
    assert_eq!(cast_effect(Direction::East, p(0, 0), &room, &mut puzzle), None);
    assert!(same_puzzle(&puzzle, &before));
}

#[test]
fn cast_through_stone_leaves_the_puzzle_unchanged() {
    let mut room = meadow(5, 1);
    *room.tiles.index_mut(p(1, 0)) = ground(Material::Stone);
    let mut puzzle = no_puzzle(5, 1);
    puzzle.set_cell(p(3, 0), Some(PuzzleCell::new(0, Some(Plant::Default))));
    let before = puzzle.clone();
    assert_eq!(cast_effect(Direction::East, p(0, 0), &room, &mut puzzle), None);
    assert!(same_puzzle(&puzzle, &before));
}

#[test]
fn cast_stopped_by_terrain_rolls_back_the_hits_on_the_way() {
    let mut room = meadow(5, 1);
    *room.tiles.index_mut(p(3, 0)) = ground(Material::Water);
    let mut puzzle = no_puzzle(5, 1);
    puzzle.set_cell(p(1, 0), Some(PuzzleCell::new(0, Some(Plant::Default))));
    puzzle.set_cell(p(2, 0), Some(PuzzleCell::new(0, Some(Plant::Default))));
    puzzle.set_cell(p(3, 0), Some(PuzzleCell::new(0, Some(Plant::Default))));
    let before = puzzle.clone();
    assert_eq!(before.cells.index(p(1, 0)).unwrap().hits, 0);
    assert_eq!(cast_effect(Direction::East, p(0, 0), &room, &mut puzzle), None);
    assert!(same_puzzle(&puzzle, &before));
    assert_eq!(puzzle.cells.index(p(1, 0)).unwrap().hits, 0);
    assert_eq!(puzzle.cells.index(p(2, 0)).unwrap().hits, 0);
    assert_eq!(puzzle.regions, vec![PuzzleStatus::Virgin]);
}

#[test]
fn cast_that_runs_off_the_edge_leaves_the_puzzle_unchanged() {
    let room = meadow(4, 1);
    let mut puzzle = no_puzzle(4, 1);
    puzzle.set_cell(p(1, 0), Some(PuzzleCell::new(0, Some(Plant::Default))));
    puzzle.set_cell(p(2, 0), Some(PuzzleCell::new(0, Some(Plant::Default))));
    puzzle.set_cell(p(3, 0), Some(PuzzleCell::new(0, Some(Plant::Default))));
    puzzle.set_cell(p(0, 0), Some(PuzzleCell::new(0, Some(Plant::Default))));
    let before = puzzle.clone();
    assert_eq!(cast_effect(Direction::North, p(1, 0), &room, &mut puzzle), Some(p(1, 0)));
    let mut puzzle = before.clone();
    puzzle.regions[0] = PuzzleStatus::Complete;
    let spent = puzzle.clone();
    assert_eq!(cast_effect(Direction::East, p(0, 0), &room, &mut puzzle), None);
    assert!(same_puzzle(&puzzle, &spent));
}

#[test]
fn cast_strikes_every_plant_up_to_the_wall() {
    let room = meadow(4, 1);
    let mut puzzle = no_puzzle(4, 1);
    puzzle.set_cell(p(0, 0), Some(PuzzleCell::new(0, Some(Plant::Default))));
    puzzle.set_cell(p(1, 0), Some(PuzzleCell::new(0, None)));
    puzzle.set_cell(p(2, 0), Some(PuzzleCell::new(0, Some(Plant::Default))));
    puzzle.set_cell(p(3, 0), Some(PuzzleCell::new(5, Some(Plant::Default))));
    assert_eq!(cast_effect(Direction::East, p(0, 0), &room, &mut puzzle), Some(p(2, 0)));
    assert_eq!(puzzle.cells.index(p(0, 0)).unwrap().hits, 1);
    assert_eq!(puzzle.cells.index(p(1, 0)).unwrap().hits, 0);
    assert_eq!(puzzle.cells.index(p(2, 0)).unwrap().hits, 1);
    assert_eq!(puzzle.cells.index(p(3, 0)).unwrap().hits, 0);
    assert_eq!(puzzle.regions[0], PuzzleStatus::Exhausted);
    assert_eq!(puzzle.regions[5], PuzzleStatus::Virgin);
}

#[test]
fn cast_hits_stay_at_the_highest_count() {
    let room = meadow(1, 1);
    let mut puzzle = no_puzzle(1, 1);
    let mut cell = PuzzleCell::new(0, Some(Plant::Default));
    cell.hits = 255;
    puzzle.set_cell(p(0, 0), Some(cell));
    assert_eq!(cast_effect(Direction::South, p(0, 0), &room, &mut puzzle), Some(p(0, 0)));
    assert_eq!(puzzle.cells.index(p(0, 0)).unwrap().hits, 255);
}

#[test]
fn cast_from_outside_the_room_does_nothing() {
    let room = meadow(2, 2);
    let mut puzzle = no_puzzle(2, 2);
    puzzle.set_cell(p(0, 0), Some(PuzzleCell::new(0, None)));
    let before = puzzle.clone();
    assert_eq!(cast_effect(Direction::North, p(0, 2), &room, &mut puzzle), None);
    assert_eq!(cast_effect(Direction::West, p(5, 0), &room, &mut puzzle), None);
    assert!(same_puzzle(&puzzle, &before));
}

#[test]
fn cast_into_void_does_nothing() {
    let mut room = meadow(3, 1);
    *room.tiles.index_mut(p(1, 0)) = None;
    let mut puzzle = no_puzzle(3, 1);
    puzzle.set_cell(p(2, 0), Some(PuzzleCell::new(0, None)));
    let before = puzzle.clone();
    assert_eq!(cast_effect(Direction::East, p(0, 0), &room, &mut puzzle), None);
    assert!(same_puzzle(&puzzle, &before));
}
