//! The terrain grid: one category for every coordinate of a rectangle.

use vstd::prelude::*;
use vstd::arithmetic::div_mod::lemma_fundamental_div_mod_converse;
use crate::terrain::MapCellType;

verus! {

/// A cell position: column `x`, row `y`.
#[derive(Debug, Clone, Copy, PartialEq, Eq, Hash, Structural)]
pub struct Coord {
    pub x: i64,
    pub y: i64,
}

/// Why a grid could not be made.
#[derive(Debug, Clone, Copy, PartialEq, Eq, Structural)]
pub enum GridError {
    /// The width or the height is zero or negative.
    NonPositiveDimension,
    /// The grid would have more cells than a vector can hold.
    TooLarge,
}

/// The mathematical grid: `cells` holds the rows one after another, so the
/// cell of column `x` and row `y` stands at `y * width + x`.
#[verifier::ext_equal]
pub struct GridModel {
    pub width: int,
    pub height: int,
    pub cells: Seq<MapCellType>,
}

impl GridModel {
    /// The grid has a positive width and height, and a cell for every
    /// coordinate of the rectangle.
    pub open spec fn wf(self) -> bool {
        &&& self.width > 0
        &&& self.height > 0
        &&& self.cells.len() == self.width * self.height
    }

    /// Whether `(x, y)` lies in the rectangle of the grid.
    pub open spec fn contains(self, x: int, y: int) -> bool {
        0 <= x < self.width && 0 <= y < self.height
    }

    /// The category at `(x, y)`.
    pub open spec fn at(self, x: int, y: int) -> MapCellType {
        self.cells[y * self.width + x]
    }

    /// The grid with the category at `(x, y)` replaced by `t`.
    pub open spec fn set(self, x: int, y: int, t: MapCellType) -> GridModel {
        GridModel {
            width: self.width,
            height: self.height,
            cells: self.cells.update(y * self.width + x, t),
        }
    }

    /// The grid of the given size with every cell unassigned.
    pub open spec fn blank(width: int, height: int) -> GridModel {
        GridModel {
            width,
            height,
            cells: Seq::new((width * height) as nat, |i: int| MapCellType::Undeclared),
        }
    }

    /// Whether every cell of the grid is unassigned.
    pub open spec fn all_undeclared(self) -> bool {
        forall|i: int| 0 <= i < self.cells.len() ==> self.cells[i] == MapCellType::Undeclared
    }
}

/// The position of a cell in the row-major order lies inside the grid, and
/// no side of the grid is longer than the grid has cells.
pub proof fn lemma_index_in_range(width: int, height: int, x: int, y: int)
    requires
        0 <= x < width,
        0 <= y < height,
    ensures
        0 <= y * width + x < width * height,
        width <= width * height,
        height <= width * height,
{
    assert(y * width + x < width * height) by (nonlinear_arith)
        requires
            0 <= x < width,
            0 <= y < height,
    ;
    assert(0 <= y * width) by (nonlinear_arith)
        requires
            0 <= x < width,
            0 <= y < height,
    ;
    assert(width <= width * height && height <= width * height) by (nonlinear_arith)
        requires
            0 < width,
            0 < height,
    ;
}

/// Two coordinates of a grid with the same row-major position are equal.
pub proof fn lemma_index_injective(width: int, x1: int, y1: int, x2: int, y2: int)
    requires
        0 <= x1 < width,
        0 <= x2 < width,
        y1 * width + x1 == y2 * width + x2,
    ensures
        x1 == x2,
        y1 == y2,
{
    lemma_fundamental_div_mod_converse(y1 * width + x1, width, y1, x1);
    lemma_fundamental_div_mod_converse(y2 * width + x2, width, y2, x2);
}

/// Reading a grid after one cell was replaced: the replaced cell holds the
/// new category, every other cell what it held before.
pub proof fn lemma_set_at(g: GridModel, x: int, y: int, t: MapCellType, x2: int, y2: int)
    requires
        g.wf(),
        g.contains(x, y),
        g.contains(x2, y2),
    ensures
        g.set(x, y, t).wf(),
        g.set(x, y, t).at(x2, y2) == if x2 == x && y2 == y {
            t
        } else {
            g.at(x2, y2)
        },
{
    lemma_index_in_range(g.width, g.height, x, y);
    lemma_index_in_range(g.width, g.height, x2, y2);
    if y * g.width + x == y2 * g.width + x2 {
        lemma_index_injective(g.width, x, y, x2, y2);
    }
}

/// Replacing a cell twice leaves what the second replacement wrote, and
/// replacing it by what it holds changes nothing.
pub proof fn lemma_set_twice(g: GridModel, x: int, y: int, first: MapCellType, second: MapCellType)
    requires
        g.wf(),
        g.contains(x, y),
    ensures
        g.set(x, y, first).set(x, y, second) == g.set(x, y, second),
        g.set(x, y, g.at(x, y)) == g,
{
    lemma_index_in_range(g.width, g.height, x, y);
}

/// The map state: a category for every coordinate of `[0, width) x [0, height)`.
#[derive(Debug)]
pub struct TerrainGrid {
    width: i64,
    height: i64,
    cells: Vec<MapCellType>,
}

impl View for TerrainGrid {
    type V = GridModel;

    closed spec fn view(&self) -> GridModel {
        GridModel { width: self.width as int, height: self.height as int, cells: self.cells@ }
    }
}

impl Clone for TerrainGrid {
    fn clone(&self) -> (copy: Self)
        ensures
            copy@ == self@,
    {
        proof {
            use_type_invariant(self);
        }
        let cells = self.cells.clone();
        TerrainGrid { width: self.width, height: self.height, cells }
    }
}

impl TerrainGrid {
    /// The invariant of a grid: its model is well formed, and its sides fit
    /// the coordinate type.
    #[verifier::type_invariant]
    pub open spec fn wf(&self) -> bool {
        &&& self@.wf()
        &&& self@.width <= i64::MAX
        &&& self@.height <= i64::MAX
        &&& self@.cells.len() <= usize::MAX
    }

    /// A grid of the given size with every cell unassigned. A side that is
    /// not positive is refused, and so is a grid with more than `isize::MAX`
    /// cells, the most that a vector can hold.
    pub fn new(width: i64, height: i64) -> (r: Result<TerrainGrid, GridError>)
        ensures
            r is Ok <==> width > 0 && height > 0 && width * height <= isize::MAX,
            r matches Ok(g) ==> g.wf() && g@ == GridModel::blank(width as int, height as int),
            r matches Err(e) ==> (e == GridError::NonPositiveDimension <==> width <= 0 || height
                <= 0),
    {
        if width <= 0 || height <= 0 {
            return Err(GridError::NonPositiveDimension);
        }
        assert(0 < width * height <= 0x7fff_ffff_ffff_ffff * 0x7fff_ffff_ffff_ffff)
            by (nonlinear_arith)
            requires
                0 < width <= 0x7fff_ffff_ffff_ffff,
                0 < height <= 0x7fff_ffff_ffff_ffff,
        ;
        let count: u128 = (width as u128) * (height as u128);
        if count > isize::MAX as u128 {
            return Err(GridError::TooLarge);
        }
        let cells = vec![MapCellType::Undeclared; count as usize];
        let grid = TerrainGrid { width, height, cells };
        Ok(grid)
    }

    /// The number of columns.
    pub fn width(&self) -> (w: i64)
        ensures
            w == self@.width,
            w > 0,
    {
        proof {
            use_type_invariant(self);
        }
        self.width
    }

    /// The number of rows.
    pub fn height(&self) -> (h: i64)
        ensures
            h == self@.height,
            h > 0,
    {
        proof {
            use_type_invariant(self);
        }
        self.height
    }

    /// The number of cells.
    pub fn len(&self) -> (n: usize)
        ensures
            n == self@.cells.len(),
            n == self@.width * self@.height,
            n > 0,
    {
        proof {
            use_type_invariant(self);
            lemma_index_in_range(self@.width, self@.height, 0, 0);
        }
        self.cells.len()
    }

    /// Whether `coord` lies in the rectangle of the grid.
    pub fn contains(&self, coord: Coord) -> (b: bool)
        ensures
            b == self@.contains(coord.x as int, coord.y as int),
    {
        proof {
            use_type_invariant(self);
        }
        0 <= coord.x && coord.x < self.width && 0 <= coord.y && coord.y < self.height
    }

    /// The place of the cell `(x, y)` in the row-major storage.
    fn offset(&self, x: i64, y: i64) -> (i: usize)
        requires
            self@.contains(x as int, y as int),
        ensures
            i == y * self@.width + x,
            i < self@.cells.len(),
    {
        proof {
            use_type_invariant(self);
            lemma_index_in_range(self@.width, self@.height, x as int, y as int);
        }
        (y as usize) * (self.width as usize) + (x as usize)
    }

    /// The category at `(x, y)`, a coordinate of the grid.
    pub fn cell(&self, x: i64, y: i64) -> (t: MapCellType)
        requires
            self@.contains(x as int, y as int),
        ensures
            t == self@.at(x as int, y as int),
    {
        proof {
            use_type_invariant(self);
        }
        let i = self.offset(x, y);
        self.cells[i]
    }

    /// The category at `coord`; `None` for a coordinate outside the grid.
    pub fn get(&self, coord: Coord) -> (r: Option<MapCellType>)
        ensures
            r == if self@.contains(coord.x as int, coord.y as int) {
                Some(self@.at(coord.x as int, coord.y as int))
            } else {
                None
            },
    {
        proof {
            use_type_invariant(self);
        }
        if self.contains(coord) {
            Some(self.cell(coord.x, coord.y))
        } else {
            None
        }
    }

    /// Makes every cell unassigned again.
    pub fn clear(&mut self)
        ensures
            final(self)@ == GridModel::blank(old(self)@.width, old(self)@.height),
    {
        proof {
            use_type_invariant(&*self);
        }
        let count = self.cells.len();
        self.cells = vec![MapCellType::Undeclared; count];
    }

    /// Replaces the category at `(x, y)`, a coordinate of the grid.
    pub fn put(&mut self, x: i64, y: i64, cell_type: MapCellType)
        requires
            old(self)@.contains(x as int, y as int),
        ensures
            final(self)@ == old(self)@.set(x as int, y as int, cell_type),
    {
        proof {
            use_type_invariant(&*self);
        }
        let i = self.offset(x, y);
        self.cells[i] = cell_type;
    }

    /// Replaces the category at `coord` and returns `true`; a coordinate
    /// outside the grid changes nothing and gives `false`.
    pub fn insert(&mut self, coord: Coord, cell_type: MapCellType) -> (inside: bool)
        ensures
            inside == old(self)@.contains(coord.x as int, coord.y as int),
            final(self)@ == if inside {
                old(self)@.set(coord.x as int, coord.y as int, cell_type)
            } else {
                old(self)@
            },
    {
        proof {
            use_type_invariant(&*self);
        }
        if self.contains(coord) {
            self.put(coord.x, coord.y, cell_type);
            true
        } else {
            false
        }
    }
}

} // verus!
