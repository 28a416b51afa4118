use procedural_map::conflict::{check_conflicts, score, wrap_coordinate, NCELLSEARCHRANGE};
use procedural_map::grid::{Coord, TerrainGrid};
use procedural_map::table::ConflictTable;
use procedural_map::terrain::MapCellType;

fn filled(width: i64, height: i64, cell_type: MapCellType) -> TerrainGrid {
    let mut grid = TerrainGrid::new(width, height).unwrap();
    for x in 0..width {
        for y in 0..height {
            grid.put(x, y, cell_type);
        }
    }
    grid
}

#[test]
fn wrap_goes_around_the_torus() {
    assert_eq!(NCELLSEARCHRANGE, 3);
    assert_eq!(wrap_coordinate(0, -1, 10), 9);
    assert_eq!(wrap_coordinate(0, -3, 10), 7);
    assert_eq!(wrap_coordinate(9, 1, 10), 0);
    assert_eq!(wrap_coordinate(9, 2, 10), 1);
    assert_eq!(wrap_coordinate(5, 2, 10), 7);
    assert_eq!(wrap_coordinate(5, 0, 10), 5);
    assert_eq!(wrap_coordinate(0, -3, 2), 1);
    assert_eq!(wrap_coordinate(0, -2, 2), 0);
    assert_eq!(wrap_coordinate(0, -3, 1), 0);
    assert_eq!(wrap_coordinate(1, -3, 3), 1);
    assert_eq!(wrap_coordinate(-7, 0, 5), 3);
    assert_eq!(wrap_coordinate(12, 30, 5), 2);
}

#[test]
fn wrap_at_the_ends_of_the_integers() {
    assert_eq!(wrap_coordinate(i64::MAX, i64::MAX, 7), 0);
    assert_eq!(wrap_coordinate(i64::MIN, i64::MIN, 7), 5);
    assert_eq!(wrap_coordinate(i64::MIN, 0, i64::MAX), i64::MAX - 1);
    assert_eq!(wrap_coordinate(i64::MAX, 0, i64::MAX), 0);
    assert_eq!(wrap_coordinate(-1, 0, i64::MAX), i64::MAX - 1);
}

#[test]
fn score_sums_the_whole_window_but_the_cell_itself() {
    let table = ConflictTable::standard();
    let grid = filled(10, 10, MapCellType::Forest);
    for (x, y) in [(0, 0), (5, 5), (9, 9), (0, 9), (3, 7)] {
        let coord = Coord { x, y };
        assert_eq!(score(coord, MapCellType::Sand, &grid, &table), 35);
        assert_eq!(score(coord, MapCellType::HighMountains, &grid, &table), 35);
        assert_eq!(score(coord, MapCellType::Forest, &grid, &table), 0);
        assert_eq!(score(coord, MapCellType::Moutains, &grid, &table), 0);
        assert_eq!(score(coord, MapCellType::Undeclared, &grid, &table), 0);
        assert_eq!(check_conflicts(coord, &grid, &table), 0);
    }
}

#[test]
fn score_weighs_each_neighbour_by_the_table() {
    let table = ConflictTable::new(vec![vec![3, 2], vec![2, 0]]).unwrap();
    let grid = filled(10, 10, MapCellType::Moutains);
    let coord = Coord { x: 4, y: 4 };
    assert_eq!(score(coord, MapCellType::Moutains, &grid, &table), 105);
    assert_eq!(score(coord, MapCellType::Forest, &grid, &table), 70);
    assert_eq!(score(coord, MapCellType::Plains, &grid, &table), 0);
    assert_eq!(check_conflicts(coord, &grid, &table), 105);
}

#[test]
fn score_does_not_read_the_cell_itself() {
    let table = ConflictTable::standard();
    let mut grid = TerrainGrid::new(10, 10).unwrap();
    grid.put(4, 4, MapCellType::Water);
    assert_eq!(score(Coord { x: 4, y: 4 }, MapCellType::Moutains, &grid, &table), 0);
    assert_eq!(score(Coord { x: 5, y: 5 }, MapCellType::Moutains, &grid, &table), 1);
    let mut around = filled(10, 10, MapCellType::Forest);
    let before = score(Coord { x: 2, y: 3 }, MapCellType::Sand, &around, &table);
    for cell_type in [MapCellType::Undeclared, MapCellType::Sand, MapCellType::Water] {
        around.put(2, 3, cell_type);
        assert_eq!(score(Coord { x: 2, y: 3 }, MapCellType::Sand, &around, &table), before);
    }
}

#[test]
fn score_at_the_origin_counts_the_far_corner() {
    let table = ConflictTable::standard();
    for (width, height) in [(10, 10), (7, 12), (4, 4), (20, 5)] {
        let mut grid = TerrainGrid::new(width, height).unwrap();
        assert_eq!(score(Coord { x: 0, y: 0 }, MapCellType::Moutains, &grid, &table), 0);
        grid.put(width - 1, height - 1, MapCellType::Water);
        assert_eq!(score(Coord { x: 0, y: 0 }, MapCellType::Moutains, &grid, &table), 1);
    }
}

#[test]
fn window_reaches_three_back_and_two_ahead() {
    let table = ConflictTable::standard();
    let at = Coord { x: 0, y: 0 };
    for (x, counted) in [(7, true), (8, true), (9, true), (1, true), (2, true), (3, false), (6, false)] {
        let mut grid = TerrainGrid::new(10, 10).unwrap();
        grid.put(x, 0, MapCellType::Water);
        assert_eq!(score(at, MapCellType::Moutains, &grid, &table), if counted { 1 } else { 0 });
        let mut turned = TerrainGrid::new(10, 10).unwrap();
        turned.put(0, x, MapCellType::Water);
        assert_eq!(score(at, MapCellType::Moutains, &turned, &table), if counted { 1 } else { 0 });
    }
}

#[test]
fn window_on_a_grid_smaller_than_itself() {
    let table = ConflictTable::standard();
    let one = filled(1, 1, MapCellType::Forest);
    assert_eq!(score(Coord { x: 0, y: 0 }, MapCellType::Sand, &one, &table), 0);
    let two = filled(2, 2, MapCellType::Forest);
    assert_eq!(score(Coord { x: 0, y: 0 }, MapCellType::Sand, &two, &table), 27);
    assert_eq!(score(Coord { x: 1, y: 1 }, MapCellType::Sand, &two, &table), 27);
    let row = filled(3, 1, MapCellType::Forest);
    assert_eq!(score(Coord { x: 0, y: 0 }, MapCellType::Sand, &row, &table), 24);
    let column = filled(1, 6, MapCellType::Forest);
    assert_eq!(score(Coord { x: 0, y: 2 }, MapCellType::Sand, &column, &table), 30);
}

#[test]
fn check_conflicts_scores_the_category_in_the_cell() {
    let table = ConflictTable::standard();
    let mut grid = filled(10, 10, MapCellType::Forest);
    grid.put(5, 5, MapCellType::Water);
    assert_eq!(check_conflicts(Coord { x: 5, y: 5 }, &grid, &table), 35);
    assert_eq!(check_conflicts(Coord { x: 6, y: 6 }, &grid, &table), 1);
    assert_eq!(check_conflicts(Coord { x: 8, y: 8 }, &grid, &table), 1);
    assert_eq!(check_conflicts(Coord { x: 9, y: 9 }, &grid, &table), 0);
    assert_eq!(check_conflicts(Coord { x: 2, y: 2 }, &grid, &table), 0);
    assert_eq!(check_conflicts(Coord { x: 3, y: 3 }, &grid, &table), 1);
    grid.put(6, 6, MapCellType::Moutains);
    assert_eq!(check_conflicts(Coord { x: 6, y: 6 }, &grid, &table), 1);
    assert_eq!(check_conflicts(Coord { x: 5, y: 5 }, &grid, &table), 35);
    grid.put(5, 5, MapCellType::Undeclared);
    assert_eq!(check_conflicts(Coord { x: 5, y: 5 }, &grid, &table), 0);
}
