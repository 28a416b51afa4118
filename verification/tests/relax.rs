use procedural_map::grid::{Coord, TerrainGrid};
use procedural_map::relax::{
    cell_is_contested, find_best_type, find_least_cell_conflict, relax_cell, relax_with_samples,
    CellSample, RelaxationPass, ITERATION, LEAST_CONFLICTS_START,
};
use procedural_map::table::ConflictTable;
use procedural_map::terrain::MapCellType;

fn filled(width: i64, height: i64, cell_type: MapCellType) -> TerrainGrid {
    let mut grid = TerrainGrid::new(width, height).unwrap();
    for x in 0..width {
        for y in 0..height {
            grid.put(x, y, cell_type);
        }
    }
    grid
}

fn cells(grid: &TerrainGrid) -> Vec<MapCellType> {
    let mut all = Vec::new();
    for y in 0..grid.height() {
        for x in 0..grid.width() {
            all.push(grid.cell(x, y));
        }
    }
    all
}

fn sample(x: i64, y: i64, candidates: &[MapCellType]) -> CellSample {
    CellSample { coord: Coord { x, y }, candidates: candidates.to_vec() }
}

#[test]
fn constants_of_the_pass() {
    assert_eq!(ITERATION, 8);
    assert_eq!(LEAST_CONFLICTS_START, 100);
}

#[test]
fn unassigned_and_conflicting_cells_are_contested() {
    let table = ConflictTable::standard();
    let blank = TerrainGrid::new(5, 5).unwrap();
    assert!(cell_is_contested(Coord { x: 2, y: 2 }, &blank, &table));
    let mut grid = filled(10, 10, MapCellType::Forest);
    assert!(!cell_is_contested(Coord { x: 2, y: 2 }, &grid, &table));
    grid.put(5, 5, MapCellType::Water);
    assert!(cell_is_contested(Coord { x: 5, y: 5 }, &grid, &table));
    assert!(cell_is_contested(Coord { x: 6, y: 6 }, &grid, &table));
    assert!(cell_is_contested(Coord { x: 3, y: 8 }, &grid, &table));
    assert!(!cell_is_contested(Coord { x: 2, y: 5 }, &grid, &table));
    assert!(!cell_is_contested(Coord { x: 9, y: 9 }, &grid, &table));
}

#[test]
fn a_coordinate_outside_the_grid_is_not_contested() {
    let table = ConflictTable::standard();
    let blank = TerrainGrid::new(5, 5).unwrap();
    assert!(!cell_is_contested(Coord { x: 5, y: 0 }, &blank, &table));
    assert!(!cell_is_contested(Coord { x: 0, y: -1 }, &blank, &table));
}

#[test]
fn best_type_is_the_first_with_the_least_score() {
    let table = ConflictTable::standard();
    let at = Coord { x: 5, y: 5 };
    let mut grid = filled(10, 10, MapCellType::Forest);
    let best = find_best_type(
        &mut grid,
        &table,
        at,
        &vec![
            MapCellType::Sand,
            MapCellType::Water,
            MapCellType::Moutains,
            MapCellType::Forest,
            MapCellType::Plains,
        ],
    );
    assert_eq!(best, MapCellType::Moutains);
    assert_eq!(grid.cell(5, 5), MapCellType::Moutains);
    let best = find_best_type(&mut grid, &table, at, &vec![MapCellType::Forest, MapCellType::Moutains]);
    assert_eq!(best, MapCellType::Forest);
    assert_eq!(grid.cell(5, 5), MapCellType::Forest);
    let best = find_best_type(&mut grid, &table, at, &vec![MapCellType::Water, MapCellType::Sand]);
    assert_eq!(best, MapCellType::Water);
    assert_eq!(grid.cell(5, 5), MapCellType::Water);
}

#[test]
fn best_type_changes_no_other_cell() {
    let table = ConflictTable::standard();
    let mut grid = filled(6, 6, MapCellType::Forest);
    grid.put(0, 0, MapCellType::Water);
    let before = cells(&grid);
    find_best_type(&mut grid, &table, Coord { x: 3, y: 2 }, &vec![MapCellType::Sand, MapCellType::Plains]);
    let after = cells(&grid);
    for i in 0..36 {
        if i == 2 * 6 + 3 {
            assert_eq!(after[i], MapCellType::Plains);
        } else {
            assert_eq!(after[i], before[i]);
        }
    }
}

#[test]
fn with_no_candidate_the_cell_becomes_unassigned() {
    let table = ConflictTable::standard();
    let mut grid = filled(10, 10, MapCellType::Forest);
    let best = find_best_type(&mut grid, &table, Coord { x: 1, y: 1 }, &vec![]);
    assert_eq!(best, MapCellType::Undeclared);
    assert_eq!(grid.cell(1, 1), MapCellType::Undeclared);
}

#[test]
fn a_candidate_has_to_score_under_the_start_value() {
    let heavy = ConflictTable::new(vec![vec![0, 3], vec![3, 0]]).unwrap();
    let at = Coord { x: 5, y: 5 };
    let mut grid = filled(10, 10, MapCellType::Forest);
    assert_eq!(find_best_type(&mut grid, &heavy, at, &vec![MapCellType::Moutains]), MapCellType::Undeclared);
    assert_eq!(grid.cell(5, 5), MapCellType::Undeclared);
    grid.put(4, 4, MapCellType::Undeclared);
    assert_eq!(find_best_type(&mut grid, &heavy, at, &vec![MapCellType::Moutains]), MapCellType::Undeclared);
    grid.put(6, 6, MapCellType::Undeclared);
    assert_eq!(find_best_type(&mut grid, &heavy, at, &vec![MapCellType::Moutains]), MapCellType::Moutains);
    assert_eq!(grid.cell(5, 5), MapCellType::Moutains);
    let four = ConflictTable::new(vec![vec![0, 4], vec![4, 0]]).unwrap();
    let mut exact = TerrainGrid::new(10, 10).unwrap();
    for x in 2..7 {
        for y in 2..7 {
            exact.put(x, y, MapCellType::Forest);
        }
    }
    assert_eq!(find_best_type(&mut exact, &four, at, &vec![MapCellType::Moutains]), MapCellType::Moutains);
    exact.put(7, 7, MapCellType::Forest);
    assert_eq!(find_best_type(&mut exact, &four, at, &vec![MapCellType::Moutains]), MapCellType::Undeclared);
    assert_eq!(
        find_best_type(&mut exact, &four, at, &vec![MapCellType::Moutains, MapCellType::Forest]),
        MapCellType::Forest
    );
}

#[test]
fn relax_cell_leaves_a_settled_cell() {
    let table = ConflictTable::standard();
    let mut grid = filled(10, 10, MapCellType::Forest);
    let before = cells(&grid);
    assert!(!relax_cell(&mut grid, &table, &sample(3, 3, &[MapCellType::Water, MapCellType::Sand])));
    assert_eq!(cells(&grid), before);
    assert!(!relax_cell(&mut grid, &table, &sample(10, 3, &[MapCellType::Water])));
    assert!(!relax_cell(&mut grid, &table, &sample(-1, -1, &[MapCellType::Water])));
    assert_eq!(cells(&grid), before);
}

#[test]
fn relax_cell_reassigns_a_contested_cell() {
    let table = ConflictTable::standard();
    let mut grid = filled(10, 10, MapCellType::Forest);
    grid.put(3, 3, MapCellType::Water);
    assert!(relax_cell(&mut grid, &table, &sample(3, 3, &[MapCellType::Sand, MapCellType::Plains])));
    assert_eq!(grid.cell(3, 3), MapCellType::Plains);
    let mut blank = TerrainGrid::new(4, 4).unwrap();
    assert!(relax_cell(&mut blank, &table, &sample(0, 0, &[MapCellType::Sand, MapCellType::Plains])));
    assert_eq!(blank.cell(0, 0), MapCellType::Sand);
    assert!(relax_cell(&mut blank, &table, &sample(1, 0, &[MapCellType::Forest, MapCellType::Plains])));
    assert_eq!(blank.cell(1, 0), MapCellType::Plains);
}

#[test]
fn samples_see_what_the_samples_before_them_wrote() {
    let table = ConflictTable::standard();
    let mut grid = TerrainGrid::new(10, 10).unwrap();
    let samples = vec![
        sample(0, 0, &[MapCellType::Water, MapCellType::Moutains]),
        sample(1, 1, &[MapCellType::Moutains, MapCellType::Sand]),
        sample(0, 0, &[MapCellType::Moutains, MapCellType::Sand]),
        sample(1, 1, &[MapCellType::Moutains]),
        sample(5, 5, &[MapCellType::HighMountains]),
        sample(20, 20, &[MapCellType::Forest]),
    ];
    let count = relax_with_samples(&mut grid, &table, &samples);
    assert_eq!(count, 3);
    assert_eq!(grid.cell(0, 0), MapCellType::Water);
    assert_eq!(grid.cell(1, 1), MapCellType::Sand);
    assert_eq!(grid.cell(5, 5), MapCellType::HighMountains);
    let assigned = cells(&grid).iter().filter(|c| **c != MapCellType::Undeclared).count();
    assert_eq!(assigned, 3);
}

#[test]
fn no_samples_no_change() {
    let table = ConflictTable::standard();
    let mut grid = TerrainGrid::new(3, 3).unwrap();
    grid.put(1, 1, MapCellType::Sand);
    let before = cells(&grid);
    assert_eq!(relax_with_samples(&mut grid, &table, &vec![]), 0);
    assert_eq!(cells(&grid), before);
}

#[test]
fn a_full_sweep_assigns_every_cell() {
    let table = ConflictTable::new(vec![vec![0, 1], vec![1, 0]]).unwrap();
    let mut grid = TerrainGrid::new(10, 10).unwrap();
    let mut sweep = Vec::new();
    for y in 0..10 {
        for x in 0..10 {
            sweep.push(sample(x, y, &[MapCellType::Forest, MapCellType::Moutains]));
        }
    }
    assert_eq!(relax_with_samples(&mut grid, &table, &sweep), 100);
    assert_eq!(cells(&grid), vec![MapCellType::Forest; 100]);
    assert_eq!(relax_with_samples(&mut grid, &table, &sweep), 0);
    assert_eq!(cells(&grid), vec![MapCellType::Forest; 100]);
}

#[test]
fn run_leaves_the_grid_given_as_it_was() {
    let pass = RelaxationPass::new(ConflictTable::standard());
    let mut grid = TerrainGrid::new(12, 9).unwrap();
    grid.put(3, 3, MapCellType::Water);
    grid.put(4, 3, MapCellType::Moutains);
    let before = cells(&grid);
    let result = pass.run(&grid);
    assert_eq!(cells(&grid), before);
    assert_eq!(grid.width(), 12);
    assert_eq!(grid.height(), 9);
    assert_eq!(result.map.width(), 12);
    assert_eq!(result.map.height(), 9);
    assert!(result.conflicts_count > 0);
    assert!(result.conflicts_count <= 108);
    assert_ne!(cells(&result.map), before);
}

#[test]
fn a_pass_over_a_settled_grid_changes_nothing() {
    let table = ConflictTable::standard();
    let mut grid = filled(10, 10, MapCellType::Forest);
    for x in 0..10 {
        grid.put(x, 4, MapCellType::Moutains);
    }
    let before = cells(&grid);
    let pass = RelaxationPass::new(ConflictTable::standard());
    for _ in 0..5 {
        let result = pass.run(&grid);
        assert_eq!(result.conflicts_count, 0);
        assert_eq!(cells(&result.map), before);
        assert_eq!(find_least_cell_conflict(&mut grid, &table), 0);
        assert_eq!(cells(&grid), before);
    }
}

#[test]
fn a_pass_draws_over_the_whole_grid_and_all_handed_out_categories() {
    let table = ConflictTable::standard();
    let mut grid = TerrainGrid::new(20, 20).unwrap();
    let count = find_least_cell_conflict(&mut grid, &table);
    let after = cells(&grid);
    let assigned = after.iter().filter(|c| **c != MapCellType::Undeclared).count();
    assert!(count <= 400);
    assert!(assigned <= count);
    assert!(assigned > 100);
    assert!(after[1..].iter().any(|c| *c != MapCellType::Undeclared));
    let mut kinds = after.clone();
    kinds.retain(|c| *c != MapCellType::Undeclared);
    kinds.sort_by_key(|c| c.index());
    kinds.dedup();
    assert!(kinds.len() > 1);
}

#[test]
fn a_pass_hands_out_only_the_categories_of_the_table() {
    let table = ConflictTable::new(vec![vec![0, 1], vec![1, 0]]).unwrap();
    let mut grid = TerrainGrid::new(15, 15).unwrap();
    for _ in 0..3 {
        let count = find_least_cell_conflict(&mut grid, &table);
        assert!(count <= 225);
        for cell_type in cells(&grid) {
            assert!(
                cell_type == MapCellType::Undeclared
                    || cell_type == MapCellType::Moutains
                    || cell_type == MapCellType::Forest
            );
        }
    }
}
