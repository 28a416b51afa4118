//! The conflict evaluator: what a category would cost at a coordinate, summed
//! over the cells around it on the torus.

use vstd::prelude::*;
use vstd::arithmetic::div_mod::{
    lemma_fundamental_div_mod, lemma_fundamental_div_mod_converse, lemma_mod_bound,
};
use crate::grid::{lemma_set_at, Coord, GridModel, TerrainGrid};
use crate::table::{ConflictTable, MAX_WEIGHT};
use crate::terrain::MapCellType;

verus! {

/// How far the neighbourhood window reaches: the offsets on each axis are
/// `-NCELLSEARCHRANGE .. NCELLSEARCHRANGE`, the upper end left out.
pub const NCELLSEARCHRANGE: i64 = 3;

/// The number of offsets on one axis of the window.
pub open spec fn window_side() -> int {
    2 * NCELLSEARCHRANGE
}

/// The number of offsets in the window.
pub open spec fn window_cells() -> nat {
    (window_side() * window_side()) as nat
}

/// The window has six offsets on each axis, thirty-six in all.
pub proof fn lemma_window_size()
    ensures
        window_side() == 6,
        window_cells() == 36,
{
    assert(window_side() * window_side() == 36) by (nonlinear_arith)
        requires
            window_side() == 6,
    ;
}

/// The column offset of the `k`-th window position; columns change slowest.
pub open spec fn offset_x(k: int) -> int {
    k / window_side() - NCELLSEARCHRANGE
}

/// The row offset of the `k`-th window position.
pub open spec fn offset_y(k: int) -> int {
    k % window_side() - NCELLSEARCHRANGE
}

/// The coordinate `v` brought into `[0, size)` by going around the torus.
pub open spec fn wrap(v: int, size: int) -> int {
    v % size
}

/// The column of the cell at the `k`-th window position around column `x`.
pub open spec fn neighbour_x(g: GridModel, x: int, k: int) -> int {
    wrap(x + offset_x(k), g.width)
}

/// The row of the cell at the `k`-th window position around row `y`.
pub open spec fn neighbour_y(g: GridModel, y: int, k: int) -> int {
    wrap(y + offset_y(k), g.height)
}

/// What the `k`-th window position adds to the score of `candidate` at
/// `(x, y)`: the weight between `candidate` and the category found there,
/// and nothing where the position falls on `(x, y)` itself.
pub open spec fn contribution(
    t: ConflictTable,
    g: GridModel,
    x: int,
    y: int,
    candidate: MapCellType,
    k: int,
) -> int {
    let nx = neighbour_x(g, x, k);
    let ny = neighbour_y(g, y, k);
    if nx == x && ny == y {
        0
    } else {
        t.weight(candidate, g.at(nx, ny))
    }
}

/// The contributions of the first `k` window positions.
pub open spec fn window_sum(
    t: ConflictTable,
    g: GridModel,
    x: int,
    y: int,
    candidate: MapCellType,
    k: nat,
) -> int
    decreases k,
{
    if k == 0 {
        0
    } else {
        window_sum(t, g, x, y, candidate, (k - 1) as nat) + contribution(
            t,
            g,
            x,
            y,
            candidate,
            k - 1,
        )
    }
}

/// The conflict score of `candidate` at `(x, y)`: the sum, over the window
/// around `(x, y)` wrapped at the edges of the grid, of the weight between
/// `candidate` and each cell other than `(x, y)`.
pub open spec fn conflict_score(
    t: ConflictTable,
    g: GridModel,
    x: int,
    y: int,
    candidate: MapCellType,
) -> int {
    window_sum(t, g, x, y, candidate, window_cells())
}

/// A wrapped coordinate lies in the grid.
pub proof fn lemma_neighbour_in_grid(g: GridModel, x: int, y: int, k: int)
    requires
        g.wf(),
    ensures
        g.contains(neighbour_x(g, x, k), neighbour_y(g, y, k)),
{
    lemma_mod_bound(x + offset_x(k), g.width);
    lemma_mod_bound(y + offset_y(k), g.height);
}

/// Whether no weight of the table is above `limit`.
pub open spec fn weights_at_most(t: ConflictTable, limit: int) -> bool {
    forall|a: MapCellType, b: MapCellType| #[trigger] t.weight(a, b) <= limit
}

/// Every window position adds between nothing and the largest weight of the
/// table.
pub proof fn lemma_contribution_bounds(
    t: ConflictTable,
    g: GridModel,
    x: int,
    y: int,
    candidate: MapCellType,
    k: int,
    limit: int,
)
    requires
        t.wf(),
        weights_at_most(t, limit),
    ensures
        0 <= contribution(t, g, x, y, candidate, k) <= limit,
{
    let beside = g.at(neighbour_x(g, x, k), neighbour_y(g, y, k));
    assert(0 <= t.weight(candidate, beside) <= limit);
    assert(0 <= t.weight(candidate, candidate) <= limit);
}

/// A partial sum over the window grows with the number of positions, and
/// stays under the largest weight of the table for each of them.
pub proof fn lemma_window_sum_bounds(
    t: ConflictTable,
    g: GridModel,
    x: int,
    y: int,
    candidate: MapCellType,
    j: nat,
    k: nat,
    limit: int,
)
    requires
        t.wf(),
        weights_at_most(t, limit),
        j <= k,
    ensures
        0 <= window_sum(t, g, x, y, candidate, j) <= window_sum(t, g, x, y, candidate, k),
        window_sum(t, g, x, y, candidate, k) <= k * limit,
    decreases k,
{
    if k == 0 {
    } else {
        lemma_contribution_bounds(t, g, x, y, candidate, k - 1, limit);
        if j < k {
            lemma_window_sum_bounds(t, g, x, y, candidate, j, (k - 1) as nat, limit);
        } else {
            lemma_window_sum_bounds(t, g, x, y, candidate, (k - 1) as nat, (k - 1) as nat, limit);
        }
        assert((k - 1) * limit + limit == k * limit) by (nonlinear_arith);
    }
}

/// A score lies between nothing and the largest weight of the table for
/// every position of the window.
pub proof fn lemma_score_bounds(
    t: ConflictTable,
    g: GridModel,
    x: int,
    y: int,
    candidate: MapCellType,
    limit: int,
)
    requires
        t.wf(),
        weights_at_most(t, limit),
    ensures
        0 <= conflict_score(t, g, x, y, candidate) <= window_cells() * limit,
{
    lemma_window_sum_bounds(t, g, x, y, candidate, window_cells(), window_cells(), limit);
}

/// The score does not read the evaluated cell: whatever category stands at
/// `(x, y)`, the score of `candidate` there is the same.
pub proof fn lemma_score_ignores_own_cell(
    t: ConflictTable,
    g: GridModel,
    x: int,
    y: int,
    candidate: MapCellType,
    v: MapCellType,
)
    requires
        g.wf(),
        g.contains(x, y),
    ensures
        conflict_score(t, g.set(x, y, v), x, y, candidate) == conflict_score(t, g, x, y, candidate),
{
    lemma_window_sum_ignores_own_cell(t, g, x, y, candidate, v, window_cells());
}

proof fn lemma_window_sum_ignores_own_cell(
    t: ConflictTable,
    g: GridModel,
    x: int,
    y: int,
    candidate: MapCellType,
    v: MapCellType,
    k: nat,
)
    requires
        g.wf(),
        g.contains(x, y),
    ensures
        window_sum(t, g.set(x, y, v), x, y, candidate, k) == window_sum(t, g, x, y, candidate, k),
    decreases k,
{
    if k > 0 {
        lemma_window_sum_ignores_own_cell(t, g, x, y, candidate, v, (k - 1) as nat);
        lemma_neighbour_in_grid(g, x, y, k - 1);
        lemma_set_at(g, x, y, v, neighbour_x(g, x, k - 1), neighbour_y(g, y, k - 1));
    }
}

/// The score counts every cell of the window: it is at least the weight
/// between `candidate` and the cell at any window position that is not
/// `(x, y)` itself.
pub proof fn lemma_score_includes_neighbour(
    t: ConflictTable,
    g: GridModel,
    x: int,
    y: int,
    candidate: MapCellType,
    k: int,
)
    requires
        t.wf(),
        0 <= k < window_cells(),
        !(neighbour_x(g, x, k) == x && neighbour_y(g, y, k) == y),
    ensures
        conflict_score(t, g, x, y, candidate) >= t.weight(
            candidate,
            g.at(neighbour_x(g, x, k), neighbour_y(g, y, k)),
        ),
{
    let limit = MAX_WEIGHT as int;
    assert(weights_at_most(t, limit)) by {
        assert forall|a: MapCellType, b: MapCellType| #[trigger] t.weight(a, b) <= limit by {}
    }
    lemma_window_sum_bounds(t, g, x, y, candidate, (k + 1) as nat, window_cells(), limit);
    lemma_window_sum_bounds(t, g, x, y, candidate, k as nat, k as nat, limit);
}

/// The window wraps at the edges: on a grid of more than one cell, the score
/// at `(0, 0)` counts the cell in the opposite corner,
/// `(width - 1, height - 1)`.
pub proof fn lemma_score_wraps_to_far_corner(t: ConflictTable, g: GridModel, candidate: MapCellType)
    requires
        t.wf(),
        g.wf(),
        g.width > 1 || g.height > 1,
    ensures
        conflict_score(t, g, 0, 0, candidate) >= t.weight(
            candidate,
            g.at(g.width - 1, g.height - 1),
        ),
{
    let k = 2 * window_side() + 2;
    lemma_fundamental_div_mod_converse(-1, g.width, -1, g.width - 1);
    lemma_fundamental_div_mod_converse(-1, g.height, -1, g.height - 1);
    lemma_score_includes_neighbour(t, g, 0, 0, candidate, k);
}

/// The coordinate `v + delta` brought into `[0, size)` by going around the
/// torus.
pub fn wrap_coordinate(v: i64, delta: i64, size: i64) -> (r: i64)
    requires
        size > 0,
    ensures
        r == wrap(v + delta, size as int),
        0 <= r < size,
{
    let moved: i128 = v as i128 + delta as i128;
    let modulus: i128 = size as i128;
    proof {
        lemma_mod_bound(moved as int, size as int);
    }
    if moved >= 0 {
        (moved % modulus) as i64
    } else {
        let back: i128 = (-moved) % modulus;
        proof {
            let q = (-moved) / (size as int);
            lemma_fundamental_div_mod(-moved, size as int);
            lemma_mod_bound(-moved, size as int);
            if back == 0 {
                assert(moved == (-q) * size + 0) by (nonlinear_arith)
                    requires
                        -moved == size * q + back,
                        back == 0,
                ;
                lemma_fundamental_div_mod_converse(moved as int, size as int, -q, 0);
            } else {
                assert(moved == (-q - 1) * size + (size - back)) by (nonlinear_arith)
                    requires
                        -moved == size * q + back,
                ;
                lemma_fundamental_div_mod_converse(
                    moved as int,
                    size as int,
                    -q - 1,
                    size - back,
                );
            }
        }
        if back == 0 {
            0
        } else {
            (modulus - back) as i64
        }
    }
}

/// The conflict score of `candidate` at `coord`, a coordinate of `grid`.
pub fn score(coord: Coord, candidate: MapCellType, grid: &TerrainGrid, table: &ConflictTable) -> (s:
    usize)
    requires
        grid@.contains(coord.x as int, coord.y as int),
    ensures
        s == conflict_score(*table, grid@, coord.x as int, coord.y as int, candidate),
        s <= window_cells() * MAX_WEIGHT,
{
    let ghost g = grid@;
    let ghost x = coord.x as int;
    let ghost y = coord.y as int;
    let ghost limit = MAX_WEIGHT as int;
    proof {
        use_type_invariant(grid);
        use_type_invariant(table);
        assert forall|a: MapCellType, b: MapCellType| #[trigger] table.weight(a, b) <= limit by {}
    }
    let width = grid.width();
    let height = grid.height();
    let mut conflicts: usize = 0;
    let mut dx: i64 = -NCELLSEARCHRANGE;
    while dx < NCELLSEARCHRANGE
        invariant
            grid.wf(),
            table.wf(),
            g == grid@,
            x == coord.x,
            y == coord.y,
            limit == MAX_WEIGHT,
            weights_at_most(*table, limit),
            g.contains(x, y),
            width == g.width,
            height == g.height,
            -NCELLSEARCHRANGE <= dx <= NCELLSEARCHRANGE,
            conflicts == window_sum(
                *table,
                g,
                x,
                y,
                candidate,
                ((dx + NCELLSEARCHRANGE) * window_side()) as nat,
            ),
        decreases NCELLSEARCHRANGE - dx,
    {
        let tx = wrap_coordinate(coord.x, dx, width);
        let mut dy: i64 = -NCELLSEARCHRANGE;
        while dy < NCELLSEARCHRANGE
            invariant
                grid.wf(),
                table.wf(),
                g == grid@,
                x == coord.x,
                y == coord.y,
                limit == MAX_WEIGHT,
                weights_at_most(*table, limit),
                g.contains(x, y),
                width == g.width,
                height == g.height,
                -NCELLSEARCHRANGE <= dx < NCELLSEARCHRANGE,
                -NCELLSEARCHRANGE <= dy <= NCELLSEARCHRANGE,
                tx == wrap(x + dx, g.width),
                0 <= tx < g.width,
                conflicts == window_sum(
                    *table,
                    g,
                    x,
                    y,
                    candidate,
                    ((dx + NCELLSEARCHRANGE) * window_side() + (dy + NCELLSEARCHRANGE)) as nat,
                ),
            decreases NCELLSEARCHRANGE - dy,
        {
            let ghost k = (dx + NCELLSEARCHRANGE) * window_side() + (dy + NCELLSEARCHRANGE);
            let ty = wrap_coordinate(coord.y, dy, height);
            proof {
                lemma_fundamental_div_mod_converse(
                    k,
                    window_side(),
                    dx + NCELLSEARCHRANGE,
                    dy + NCELLSEARCHRANGE,
                );
                lemma_window_sum_bounds(*table, g, x, y, candidate, k as nat, k as nat, limit);
                lemma_contribution_bounds(*table, g, x, y, candidate, k, limit);
            }
            if !(tx == coord.x && ty == coord.y) {
                let beside = grid.cell(tx, ty);
                conflicts = conflicts + table.get(candidate, beside);
            }
            dy += 1;
        }
        assert((dx + NCELLSEARCHRANGE) * window_side() + window_side() == (dx + 1
            + NCELLSEARCHRANGE) * window_side()) by (nonlinear_arith);
        dx += 1;
    }
    proof {
        lemma_score_bounds(*table, g, x, y, candidate, limit);
    }
    conflicts
}

/// The conflict score, at `cell_coord`, of the category that the grid holds
/// there.
pub fn check_conflicts(cell_coord: Coord, grid: &TerrainGrid, table: &ConflictTable) -> (conflicts:
    usize)
    requires
        grid@.contains(cell_coord.x as int, cell_coord.y as int),
    ensures
        conflicts == conflict_score(
            *table,
            grid@,
            cell_coord.x as int,
            cell_coord.y as int,
            grid@.at(cell_coord.x as int, cell_coord.y as int),
        ),
        conflicts <= window_cells() * MAX_WEIGHT,
{
    let cell_type = grid.cell(cell_coord.x, cell_coord.y);
    score(cell_coord, cell_type, grid, table)
}

} // verus!
