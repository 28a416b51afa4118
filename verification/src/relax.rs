//! The relaxation pass: sample cells, and give each contested one the least
//! conflicting of a few candidate categories.

use vstd::prelude::*;
use crate::conflict::{
    check_conflicts, conflict_score, lemma_score_bounds, lemma_score_ignores_own_cell,
    lemma_window_size, weights_at_most, window_cells,
};
use crate::grid::{lemma_set_at, lemma_set_twice, Coord, GridModel, TerrainGrid};
use crate::random::random_in_range;
use crate::table::ConflictTable;
use crate::terrain::{lemma_ordinal_round_trip, MapCellType, MAPCELLTYPES};

verus! {

/// The number of candidate categories tried for one contested cell.
pub const ITERATION: usize = 8;

/// The score that a candidate has to beat to be taken at all.
pub const LEAST_CONFLICTS_START: usize = 100;

/// One sample of a pass, as mathematics: the coordinate drawn, and the
/// candidates to try there in the order drawn.
pub struct SampleModel {
    pub x: int,
    pub y: int,
    pub candidates: Seq<MapCellType>,
}

/// One sample of a pass: the coordinate to visit, and the candidates to try
/// there in order.
#[derive(Debug)]
pub struct CellSample {
    pub coord: Coord,
    pub candidates: Vec<MapCellType>,
}

impl View for CellSample {
    type V = SampleModel;

    open spec fn view(&self) -> SampleModel {
        SampleModel {
            x: self.coord.x as int,
            y: self.coord.y as int,
            candidates: self.candidates@,
        }
    }
}

impl DeepView for CellSample {
    type V = SampleModel;

    open spec fn deep_view(&self) -> SampleModel {
        self@
    }
}

/// What one pass hands back: the grid it arrived at, and the number of
/// samples that fell on a contested cell.
#[derive(Debug)]
pub struct MapChunkResult {
    pub map: TerrainGrid,
    pub conflicts_count: usize,
}

/// Whether `(x, y)` is a cell of the grid and contested: it conflicts with
/// its neighbourhood, or it is unassigned.
pub open spec fn is_contested(t: ConflictTable, g: GridModel, x: int, y: int) -> bool {
    &&& g.contains(x, y)
    &&& conflict_score(t, g, x, y, g.at(x, y)) > 0 || g.at(x, y) == MapCellType::Undeclared
}

/// The best candidate among `candidates` at `(x, y)` with its score, the
/// candidates taken in order: a candidate replaces the best so far only with
/// a strictly smaller score, and the first has to beat
/// `LEAST_CONFLICTS_START`. With no candidate under that score the best is
/// `Undeclared`.
pub open spec fn best_of(
    t: ConflictTable,
    g: GridModel,
    x: int,
    y: int,
    candidates: Seq<MapCellType>,
) -> (MapCellType, int)
    decreases candidates.len(),
{
    if candidates.len() == 0 {
        (MapCellType::Undeclared, LEAST_CONFLICTS_START as int)
    } else {
        let before = best_of(t, g, x, y, candidates.drop_last());
        let conflicts = conflict_score(t, g, x, y, candidates.last());
        if conflicts < before.1 {
            (candidates.last(), conflicts)
        } else {
            before
        }
    }
}

/// Whether `candidates[i]` is the first candidate with the least score of
/// all: no candidate scores less, and every one before it scores more.
pub open spec fn is_first_least(
    t: ConflictTable,
    g: GridModel,
    x: int,
    y: int,
    candidates: Seq<MapCellType>,
    i: int,
) -> bool {
    &&& 0 <= i < candidates.len()
    &&& forall|j: int|
        0 <= j < candidates.len() ==> conflict_score(t, g, x, y, candidates[i]) <= conflict_score(
            t,
            g,
            x,
            y,
            #[trigger] candidates[j],
        )
    &&& forall|j: int|
        0 <= j < i ==> conflict_score(t, g, x, y, candidates[i]) < conflict_score(
            t,
            g,
            x,
            y,
            #[trigger] candidates[j],
        )
}

/// The best candidate is the first of those with the least score, provided
/// that score is under `LEAST_CONFLICTS_START`. With no candidate under it
/// the best is `Undeclared`, with `LEAST_CONFLICTS_START` for its score.
pub proof fn lemma_best_is_first_least(
    t: ConflictTable,
    g: GridModel,
    x: int,
    y: int,
    candidates: Seq<MapCellType>,
)
    ensures
        ({
            let best = best_of(t, g, x, y, candidates);
            if forall|j: int|
                0 <= j < candidates.len() ==> conflict_score(t, g, x, y, #[trigger] candidates[j])
                    >= LEAST_CONFLICTS_START {
                best == (MapCellType::Undeclared, LEAST_CONFLICTS_START as int)
            } else {
                exists|i: int|
                    {
                        &&& #[trigger] is_first_least(t, g, x, y, candidates, i)
                        &&& best == (candidates[i], conflict_score(t, g, x, y, candidates[i]))
                        &&& best.1 < LEAST_CONFLICTS_START
                    }
            }
        }),
    decreases candidates.len(),
{
    if candidates.len() > 0 {
        let earlier = candidates.drop_last();
        let before = best_of(t, g, x, y, earlier);
        let conflicts = conflict_score(t, g, x, y, candidates.last());
        let last = candidates.len() - 1;
        lemma_best_is_first_least(t, g, x, y, earlier);
        assert forall|j: int| 0 <= j < earlier.len() implies #[trigger] earlier[j]
            == candidates[j] by {}
        if forall|j: int|
            0 <= j < earlier.len() ==> conflict_score(t, g, x, y, #[trigger] earlier[j])
                >= LEAST_CONFLICTS_START {
            if conflicts < LEAST_CONFLICTS_START {
                assert forall|j: int| 0 <= j < candidates.len() implies conflicts
                    <= conflict_score(t, g, x, y, #[trigger] candidates[j]) by {
                    if j < last {
                        assert(candidates[j] == earlier[j]);
                    }
                }
                assert forall|j: int| 0 <= j < last implies conflicts < conflict_score(
                    t,
                    g,
                    x,
                    y,
                    #[trigger] candidates[j],
                ) by {
                    assert(candidates[j] == earlier[j]);
                }
                assert(is_first_least(t, g, x, y, candidates, last));
            } else {
                assert forall|j: int| 0 <= j < candidates.len() implies conflict_score(
                    t,
                    g,
                    x,
                    y,
                    #[trigger] candidates[j],
                ) >= LEAST_CONFLICTS_START by {
                    if j < last {
                        assert(candidates[j] == earlier[j]);
                    }
                }
            }
        } else {
            let i = choose|i: int|
                {
                    &&& #[trigger] is_first_least(t, g, x, y, earlier, i)
                    &&& before == (earlier[i], conflict_score(t, g, x, y, earlier[i]))
                    &&& before.1 < LEAST_CONFLICTS_START
                };
            if conflicts < before.1 {
                assert forall|j: int| 0 <= j < candidates.len() implies conflicts
                    <= conflict_score(t, g, x, y, #[trigger] candidates[j]) by {
                    if j < last {
                        assert(candidates[j] == earlier[j]);
                    }
                }
                assert forall|j: int| 0 <= j < last implies conflicts < conflict_score(
                    t,
                    g,
                    x,
                    y,
                    #[trigger] candidates[j],
                ) by {
                    assert(candidates[j] == earlier[j]);
                }
                assert(is_first_least(t, g, x, y, candidates, last));
            } else {
                assert forall|j: int| 0 <= j < candidates.len() implies conflict_score(
                    t,
                    g,
                    x,
                    y,
                    candidates[i],
                ) <= conflict_score(t, g, x, y, #[trigger] candidates[j]) by {
                    if j < last {
                        assert(candidates[j] == earlier[j]);
                    }
                }
                assert forall|j: int| 0 <= j < i implies conflict_score(t, g, x, y, candidates[i])
                    < conflict_score(t, g, x, y, #[trigger] candidates[j]) by {
                    assert(candidates[j] == earlier[j]);
                }
                assert(is_first_least(t, g, x, y, candidates, i));
            }
        }
    }
}

/// The grid after the sample `s`: a contested cell takes the best candidate,
/// any other cell stays as it is, and a sample outside the grid does
/// nothing.
pub open spec fn relax_cell_model(t: ConflictTable, g: GridModel, s: SampleModel) -> GridModel {
    if is_contested(t, g, s.x, s.y) {
        g.set(s.x, s.y, best_of(t, g, s.x, s.y, s.candidates).0)
    } else {
        g
    }
}

/// The grid after the samples of a pass, each applied to the grid that the
/// ones before it left.
pub open spec fn pass_grid(t: ConflictTable, g: GridModel, samples: Seq<SampleModel>) -> GridModel
    decreases samples.len(),
{
    if samples.len() == 0 {
        g
    } else {
        relax_cell_model(t, pass_grid(t, g, samples.drop_last()), samples.last())
    }
}

/// The number of samples of a pass that fell on a contested cell.
pub open spec fn pass_count(t: ConflictTable, g: GridModel, samples: Seq<SampleModel>) -> nat
    decreases samples.len(),
{
    if samples.len() == 0 {
        0
    } else {
        let before = pass_grid(t, g, samples.drop_last());
        let hit: nat = if is_contested(t, before, samples.last().x, samples.last().y) {
            1
        } else {
            0
        };
        pass_count(t, g, samples.drop_last()) + hit
    }
}

/// Whether `s` is a sample that a random pass may draw on `g` with the table
/// `t`: a coordinate of the grid, and `ITERATION` candidates among the
/// categories that the table hands out, `Undeclared` not among them.
pub open spec fn is_drawable(t: ConflictTable, g: GridModel, s: SampleModel) -> bool {
    &&& g.contains(s.x, s.y)
    &&& s.candidates.len() == ITERATION
    &&& forall|j: int|
        0 <= j < s.candidates.len() ==> 1 <= (#[trigger] s.candidates[j]).ordinal()
            < t.spec_type_count()
}

/// Whether `(after, count)` is what a random pass may hand back for the grid
/// `g`: the outcome of as many drawable samples as the grid has cells.
pub open spec fn is_pass_outcome(
    t: ConflictTable,
    g: GridModel,
    after: GridModel,
    count: int,
) -> bool {
    exists|samples: Seq<SampleModel>|
        {
            &&& samples.len() == g.cells.len()
            &&& forall|i: int| 0 <= i < samples.len() ==> is_drawable(t, g, #[trigger] samples[i])
            &&& after == #[trigger] pass_grid(t, g, samples)
            &&& count == pass_count(t, g, samples)
        }
}

/// Whether no cell of `g` is contested: every cell is assigned and scores
/// no conflict.
pub open spec fn is_settled(t: ConflictTable, g: GridModel) -> bool {
    forall|x: int, y: int| !#[trigger] is_contested(t, g, x, y)
}

/// One sample leaves the grid well formed and of the same size.
pub proof fn lemma_relax_cell_keeps_shape(t: ConflictTable, g: GridModel, s: SampleModel)
    requires
        g.wf(),
    ensures
        relax_cell_model(t, g, s).wf(),
        relax_cell_model(t, g, s).width == g.width,
        relax_cell_model(t, g, s).height == g.height,
{
    if g.contains(s.x, s.y) {
        lemma_set_at(g, s.x, s.y, best_of(t, g, s.x, s.y, s.candidates).0, s.x, s.y);
    }
}

/// A pass leaves the grid well formed and of the same size, and counts no
/// more contested cells than it took samples.
pub proof fn lemma_pass_keeps_shape(t: ConflictTable, g: GridModel, samples: Seq<SampleModel>)
    requires
        g.wf(),
    ensures
        pass_grid(t, g, samples).wf(),
        pass_grid(t, g, samples).width == g.width,
        pass_grid(t, g, samples).height == g.height,
        pass_count(t, g, samples) <= samples.len(),
    decreases samples.len(),
{
    if samples.len() > 0 {
        lemma_pass_keeps_shape(t, g, samples.drop_last());
        lemma_relax_cell_keeps_shape(t, pass_grid(t, g, samples.drop_last()), samples.last());
    }
}

/// A pass over a settled grid changes nothing and counts nothing, whatever
/// the samples are.
pub proof fn lemma_pass_on_settled_grid(t: ConflictTable, g: GridModel, samples: Seq<SampleModel>)
    requires
        is_settled(t, g),
    ensures
        pass_grid(t, g, samples) == g,
        pass_count(t, g, samples) == 0,
    decreases samples.len(),
{
    if samples.len() > 0 {
        lemma_pass_on_settled_grid(t, g, samples.drop_last());
    }
}

/// Whatever a random pass draws, over a settled grid it hands the grid back
/// as it is and counts nothing.
pub proof fn lemma_pass_outcome_on_settled_grid(
    t: ConflictTable,
    g: GridModel,
    after: GridModel,
    count: int,
)
    requires
        is_settled(t, g),
        is_pass_outcome(t, g, after, count),
    ensures
        after == g,
        count == 0,
{
    let samples = choose|samples: Seq<SampleModel>|
        {
            &&& samples.len() == g.cells.len()
            &&& forall|i: int| 0 <= i < samples.len() ==> is_drawable(t, g, #[trigger] samples[i])
            &&& after == #[trigger] pass_grid(t, g, samples)
            &&& count == pass_count(t, g, samples)
        };
    lemma_pass_on_settled_grid(t, g, samples);
}

/// Whether the table is light enough for every score to stay under
/// `LEAST_CONFLICTS_START`: a window full of its largest weight sums to less.
pub open spec fn is_light(t: ConflictTable) -> bool {
    exists|limit: int|
        #[trigger] weights_at_most(t, limit) && window_cells() * limit < LEAST_CONFLICTS_START
}

/// A table with no weight above 2 is light.
pub proof fn lemma_weights_up_to_two_are_light(t: ConflictTable)
    requires
        weights_at_most(t, 2),
    ensures
        is_light(t),
{
    lemma_window_size();
}

/// Whether every sample brings at least one candidate, and no candidate is
/// `Undeclared`.
pub open spec fn candidates_are_declared(samples: Seq<SampleModel>) -> bool {
    forall|i: int|
        0 <= i < samples.len() ==> {
            &&& (#[trigger] samples[i]).candidates.len() > 0
            &&& forall|j: int|
                0 <= j < samples[i].candidates.len() ==> (#[trigger] samples[i].candidates[j])
                    != MapCellType::Undeclared
        }
}

/// Under a light table a contested cell never stays unassigned: the best of
/// any candidates, none of them `Undeclared`, is one of them.
pub proof fn lemma_light_table_assigns(
    t: ConflictTable,
    g: GridModel,
    x: int,
    y: int,
    candidates: Seq<MapCellType>,
)
    requires
        t.wf(),
        is_light(t),
        candidates.len() > 0,
        forall|j: int|
            0 <= j < candidates.len() ==> (#[trigger] candidates[j]) != MapCellType::Undeclared,
    ensures
        candidates.contains(best_of(t, g, x, y, candidates).0),
        best_of(t, g, x, y, candidates).0 != MapCellType::Undeclared,
{
    let limit = choose|limit: int|
        #[trigger] weights_at_most(t, limit) && window_cells() * limit < LEAST_CONFLICTS_START;
    lemma_score_bounds(t, g, x, y, candidates[0], limit);
    lemma_best_is_first_least(t, g, x, y, candidates);
    let i = choose|i: int|
        {
            &&& #[trigger] is_first_least(t, g, x, y, candidates, i)
            &&& best_of(t, g, x, y, candidates) == (
                candidates[i],
                conflict_score(t, g, x, y, candidates[i]),
            )
        };
}

/// A pass changes only the cells that it samples.
pub proof fn lemma_pass_leaves_unsampled_cells(
    t: ConflictTable,
    g: GridModel,
    samples: Seq<SampleModel>,
    x: int,
    y: int,
)
    requires
        g.wf(),
        g.contains(x, y),
        forall|i: int|
            0 <= i < samples.len() ==> !((#[trigger] samples[i]).x == x && samples[i].y == y),
    ensures
        pass_grid(t, g, samples).at(x, y) == g.at(x, y),
    decreases samples.len(),
{
    if samples.len() > 0 {
        let earlier = samples.drop_last();
        let s = samples.last();
        assert forall|i: int| 0 <= i < earlier.len() implies !((#[trigger] earlier[i]).x == x
            && earlier[i].y == y) by {}
        lemma_pass_leaves_unsampled_cells(t, g, earlier, x, y);
        lemma_pass_keeps_shape(t, g, earlier);
        let before = pass_grid(t, g, earlier);
        if is_contested(t, before, s.x, s.y) {
            lemma_set_at(before, s.x, s.y, best_of(t, before, s.x, s.y, s.candidates).0, x, y);
        }
    }
}

/// Under a light table, and with candidates none of which is `Undeclared`,
/// a pass leaves assigned every cell that was assigned before it and every
/// cell that it samples.
pub proof fn lemma_pass_assigns_sampled_cells(
    t: ConflictTable,
    g: GridModel,
    samples: Seq<SampleModel>,
    x: int,
    y: int,
)
    requires
        t.wf(),
        is_light(t),
        g.wf(),
        g.contains(x, y),
        candidates_are_declared(samples),
        g.at(x, y) != MapCellType::Undeclared || exists|i: int|
            0 <= i < samples.len() && (#[trigger] samples[i]).x == x && samples[i].y == y,
    ensures
        pass_grid(t, g, samples).at(x, y) != MapCellType::Undeclared,
    decreases samples.len(),
{
    if samples.len() > 0 {
        let earlier = samples.drop_last();
        let s = samples.last();
        let before = pass_grid(t, g, earlier);
        assert(candidates_are_declared(earlier)) by {
            assert forall|i: int| 0 <= i < earlier.len() implies {
                &&& (#[trigger] earlier[i]).candidates.len() > 0
                &&& forall|j: int|
                    0 <= j < earlier[i].candidates.len() ==> (#[trigger] earlier[i].candidates[j])
                        != MapCellType::Undeclared
            } by {}
        }
        lemma_pass_keeps_shape(t, g, earlier);
        if g.at(x, y) != MapCellType::Undeclared || exists|i: int|
            0 <= i < earlier.len() && (#[trigger] earlier[i]).x == x && earlier[i].y == y {
            lemma_pass_assigns_sampled_cells(t, g, earlier, x, y);
        } else {
            let i = choose|i: int|
                0 <= i < samples.len() && (#[trigger] samples[i]).x == x && samples[i].y == y;
            if i < earlier.len() {
                assert(earlier[i] == samples[i]);
            }
        }
        if is_contested(t, before, s.x, s.y) {
            lemma_light_table_assigns(t, before, s.x, s.y, s.candidates);
            lemma_set_at(before, s.x, s.y, best_of(t, before, s.x, s.y, s.candidates).0, x, y);
        }
    }
}

/// Whether the cell at `coord` is contested; a coordinate outside the grid
/// is not.
pub fn cell_is_contested(coord: Coord, grid: &TerrainGrid, table: &ConflictTable) -> (contested:
    bool)
    ensures
        contested == is_contested(*table, grid@, coord.x as int, coord.y as int),
{
    if !grid.contains(coord) {
        return false;
    }
    let selected_cell = grid.cell(coord.x, coord.y);
    let conflicts = check_conflicts(coord, grid, table);
    conflicts > 0 || selected_cell == MapCellType::Undeclared
}

/// Tries each candidate at `coord` in turn, by writing it into the grid and
/// scoring it there, and leaves the best of them in the cell.
pub fn find_best_type(
    grid: &mut TerrainGrid,
    table: &ConflictTable,
    coord: Coord,
    candidates: &Vec<MapCellType>,
) -> (best_type: MapCellType)
    requires
        old(grid)@.contains(coord.x as int, coord.y as int),
    ensures
        best_type == best_of(*table, old(grid)@, coord.x as int, coord.y as int, candidates@).0,
        final(grid)@ == old(grid)@.set(coord.x as int, coord.y as int, best_type),
{
    proof {
        use_type_invariant(&*grid);
    }
    let ghost g0 = grid@;
    let ghost x = coord.x as int;
    let ghost y = coord.y as int;
    let ghost mut held = g0.at(x, y);
    let mut best_type = MapCellType::Undeclared;
    let mut least_conflicts: usize = LEAST_CONFLICTS_START;
    let mut tried: usize = 0;
    proof {
        lemma_set_twice(g0, x, y, held, held);
    }
    while tried < candidates.len()
        invariant
            g0.wf(),
            g0.contains(x, y),
            x == coord.x,
            y == coord.y,
            grid@ == g0.set(x, y, held),
            0 <= tried <= candidates.len(),
            (best_type, least_conflicts as int) == best_of(
                *table,
                g0,
                x,
                y,
                candidates@.take(tried as int),
            ),
        decreases candidates.len() - tried,
    {
        let temp_terrain = candidates[tried];
        grid.put(coord.x, coord.y, temp_terrain);
        proof {
            lemma_set_twice(g0, x, y, held, temp_terrain);
            lemma_set_at(g0, x, y, temp_terrain, x, y);
            lemma_score_ignores_own_cell(*table, g0, x, y, temp_terrain, temp_terrain);
            held = temp_terrain;
            assert(candidates@.take(tried + 1).drop_last() =~= candidates@.take(tried as int));
        }
        let temp_conflicts = check_conflicts(coord, grid, table);
        if temp_conflicts < least_conflicts {
            best_type = temp_terrain;
            least_conflicts = temp_conflicts;
        }
        tried += 1;
    }
    grid.put(coord.x, coord.y, best_type);
    proof {
        assert(candidates@.take(candidates@.len() as int) =~= candidates@);
        lemma_set_twice(g0, x, y, held, best_type);
    }
    best_type
}

/// Applies one sample: a contested cell takes the best of the candidates,
/// and the answer is `true`; any other cell stays as it is, and the answer
/// is `false`.
pub fn relax_cell(grid: &mut TerrainGrid, table: &ConflictTable, sample: &CellSample) -> (contested:
    bool)
    ensures
        contested == is_contested(*table, old(grid)@, sample@.x, sample@.y),
        final(grid)@ == relax_cell_model(*table, old(grid)@, sample@),
        final(grid)@.width == old(grid)@.width,
        final(grid)@.height == old(grid)@.height,
{
    proof {
        use_type_invariant(&*grid);
        lemma_relax_cell_keeps_shape(*table, grid@, sample@);
    }
    if cell_is_contested(sample.coord, grid, table) {
        find_best_type(grid, table, sample.coord, &sample.candidates);
        true
    } else {
        false
    }
}

/// Applies the samples in order, each to the grid that the ones before it
/// left, and counts those that fell on a contested cell.
pub fn relax_with_samples(
    grid: &mut TerrainGrid,
    table: &ConflictTable,
    samples: &Vec<CellSample>,
) -> (conflict_count: usize)
    ensures
        final(grid)@ == pass_grid(*table, old(grid)@, samples.deep_view()),
        conflict_count == pass_count(*table, old(grid)@, samples.deep_view()),
        final(grid)@.width == old(grid)@.width,
        final(grid)@.height == old(grid)@.height,
        conflict_count <= samples.len(),
{
    proof {
        use_type_invariant(&*grid);
        lemma_pass_keeps_shape(*table, grid@, samples.deep_view());
    }
    let ghost g0 = grid@;
    let ghost all = samples.deep_view();
    let mut conflict_count: usize = 0;
    let mut done: usize = 0;
    while done < samples.len()
        invariant
            all == samples.deep_view(),
            0 <= done <= samples.len(),
            grid@ == pass_grid(*table, g0, all.take(done as int)),
            conflict_count == pass_count(*table, g0, all.take(done as int)),
            conflict_count <= done,
        decreases samples.len() - done,
    {
        proof {
            assert(all.take(done + 1).drop_last() =~= all.take(done as int));
        }
        if relax_cell(grid, table, &samples[done]) {
            conflict_count += 1;
        }
        done += 1;
    }
    proof {
        assert(all.take(samples.len() as int) =~= all);
    }
    conflict_count
}

/// Draws a coordinate of the grid.
fn draw_coordinate(grid: &TerrainGrid) -> (coord: Coord)
    ensures
        grid@.contains(coord.x as int, coord.y as int),
{
    let x = random_in_range(0, grid.width());
    let y = random_in_range(0, grid.height());
    Coord { x, y }
}

/// Draws `ITERATION` candidates among the categories that the table hands
/// out.
fn draw_candidates(table: &ConflictTable) -> (candidates: Vec<MapCellType>)
    ensures
        candidates@.len() == ITERATION,
        forall|j: int|
            0 <= j < candidates@.len() ==> 1 <= (#[trigger] candidates@[j]).ordinal()
                < table.spec_type_count(),
{
    let type_count = table.type_count();
    let mut candidates: Vec<MapCellType> = Vec::new();
    let mut drawn: usize = 0;
    while drawn < ITERATION
        invariant
            type_count == table.spec_type_count(),
            2 <= type_count <= MAPCELLTYPES,
            0 <= drawn <= ITERATION,
            candidates@.len() == drawn,
            forall|j: int|
                0 <= j < candidates@.len() ==> 1 <= (#[trigger] candidates@[j]).ordinal()
                    < table.spec_type_count(),
        decreases ITERATION - drawn,
    {
        let temp_terrain_num = random_in_range(1, type_count as i64);
        let temp_terrain = match MapCellType::from_repr(temp_terrain_num as usize) {
            Some(cell_type) => cell_type,
            None => MapCellType::Undeclared,
        };
        proof {
            lemma_ordinal_round_trip(temp_terrain, temp_terrain_num as int);
        }
        candidates.push(temp_terrain);
        drawn += 1;
    }
    candidates
}

/// One relaxation pass in place: as many times as the grid has cells, draws
/// a coordinate of the grid, and gives a contested cell the best of
/// `ITERATION` candidates drawn for it. Returns the number of samples that
/// fell on a contested cell.
pub fn find_least_cell_conflict(grid: &mut TerrainGrid, table: &ConflictTable) -> (conflict_count:
    usize)
    ensures
        final(grid)@.width == old(grid)@.width,
        final(grid)@.height == old(grid)@.height,
        conflict_count <= old(grid)@.cells.len(),
        is_pass_outcome(*table, old(grid)@, final(grid)@, conflict_count as int),
        is_settled(*table, old(grid)@) ==> final(grid)@ == old(grid)@ && conflict_count == 0,
{
    proof {
        use_type_invariant(&*grid);
    }
    let ghost g0 = grid@;
    let ghost mut trace: Seq<SampleModel> = Seq::empty();
    let ghost filler: Seq<MapCellType> = Seq::new(ITERATION as nat, |j: int| MapCellType::Moutains);
    let samples = grid.len();
    let mut conflict_count: usize = 0;
    let mut taken: usize = 0;
    while taken < samples
        invariant
            g0.wf(),
            samples == g0.cells.len(),
            0 <= taken <= samples,
            trace.len() == taken,
            filler.len() == ITERATION,
            forall|j: int| 0 <= j < filler.len() ==> filler[j] == MapCellType::Moutains,
            forall|i: int| 0 <= i < trace.len() ==> is_drawable(*table, g0, #[trigger] trace[i]),
            grid@ == pass_grid(*table, g0, trace),
            grid@.width == g0.width,
            grid@.height == g0.height,
            conflict_count == pass_count(*table, g0, trace),
            conflict_count <= taken,
        decreases samples - taken,
    {
        let cell_coord = draw_coordinate(grid);
        let ghost before = grid@;
        let ghost earlier = trace;
        if cell_is_contested(cell_coord, grid, table) {
            conflict_count += 1;
            let candidates = draw_candidates(table);
            find_best_type(grid, table, cell_coord, &candidates);
            proof {
                trace = trace.push(
                    SampleModel {
                        x: cell_coord.x as int,
                        y: cell_coord.y as int,
                        candidates: candidates@,
                    },
                );
            }
        } else {
            proof {
                trace = trace.push(
                    SampleModel {
                        x: cell_coord.x as int,
                        y: cell_coord.y as int,
                        candidates: filler,
                    },
                );
            }
        }
        proof {
            use_type_invariant(&*grid);
            use_type_invariant(table);
            assert(trace.drop_last() =~= earlier);
            lemma_pass_keeps_shape(*table, g0, earlier);
            lemma_relax_cell_keeps_shape(*table, before, trace.last());
        }
        taken += 1;
    }
    proof {
        if is_settled(*table, g0) {
            lemma_pass_on_settled_grid(*table, g0, trace);
        }
    }
    conflict_count
}

/// A relaxation pass with the table it goes by.
#[derive(Debug)]
pub struct RelaxationPass {
    table: ConflictTable,
}

impl RelaxationPass {
    /// The table that the pass goes by.
    pub closed spec fn table(&self) -> ConflictTable {
        self.table
    }

    /// A pass that goes by `table`.
    pub fn new(table: ConflictTable) -> (pass: RelaxationPass)
        ensures
            pass.table() == table,
    {
        RelaxationPass { table }
    }

    /// The table that the pass goes by.
    pub fn conflict_table(&self) -> (table: &ConflictTable)
        ensures
            *table == self.table(),
    {
        &self.table
    }

    /// One relaxation pass on a copy of `grid`: the grid given stays as it
    /// is, and the copy comes back with the count of contested samples.
    pub fn run(&self, grid: &TerrainGrid) -> (result: MapChunkResult)
        ensures
            result.map@.width == grid@.width,
            result.map@.height == grid@.height,
            result.conflicts_count <= grid@.cells.len(),
            is_pass_outcome(self.table(), grid@, result.map@, result.conflicts_count as int),
            is_settled(self.table(), grid@) ==> result.map@ == grid@ && result.conflicts_count
                == 0,
    {
        let mut map_clone = grid.clone();
        let conflicts = find_least_cell_conflict(&mut map_clone, &self.table);
        MapChunkResult { map: map_clone, conflicts_count: conflicts }
    }
}

} // verus!
