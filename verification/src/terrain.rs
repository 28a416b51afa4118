//! Terrain categories and the weights of placing two of them side by side.

use vstd::prelude::*;

verus! {

/// Number of terrain categories, the unassigned one included.
pub const MAPCELLTYPES: usize = 8;

/// The category of one map cell.
#[derive(Debug, Clone, Copy, PartialEq, Eq, Hash, Structural)]
pub enum MapCellType {
    Undeclared,
    Moutains,
    Forest,
    Plains,
    Sand,
    Water,
    DeepWater,
    HighMountains,
}

impl Default for MapCellType {
    /// A cell is unassigned until a category is given to it.
    fn default() -> (cell_type: MapCellType)
        ensures
            cell_type == MapCellType::Undeclared,
    {
        MapCellType::Undeclared
    }
}

/// The weights of the built-in table, one row per category in ordinal order.
pub open spec fn standard_rows() -> Seq<Seq<int>> {
    seq![
        seq![0, 0, 0, 0, 0, 0, 0, 0],
        seq![0, 0, 0, 1, 1, 1, 1, 0],
        seq![0, 0, 0, 0, 1, 1, 1, 1],
        seq![0, 1, 0, 0, 0, 1, 1, 1],
        seq![0, 1, 1, 0, 0, 0, 1, 1],
        seq![0, 1, 1, 1, 0, 0, 0, 1],
        seq![0, 1, 1, 1, 1, 0, 0, 1],
        seq![0, 0, 1, 1, 1, 1, 1, 0],
    ]
}

/// The built-in weight between two categories.
pub open spec fn standard_weight(a: MapCellType, b: MapCellType) -> int {
    standard_rows()[a.ordinal()][b.ordinal()]
}

impl MapCellType {
    /// The ordinal of the category: its position in the declaration order.
    pub open spec fn ordinal(self) -> int {
        match self {
            MapCellType::Undeclared => 0,
            MapCellType::Moutains => 1,
            MapCellType::Forest => 2,
            MapCellType::Plains => 3,
            MapCellType::Sand => 4,
            MapCellType::Water => 5,
            MapCellType::DeepWater => 6,
            MapCellType::HighMountains => 7,
        }
    }

    /// The category with the given ordinal; `Undeclared` stands in for an
    /// integer that is no ordinal.
    pub open spec fn of_ordinal(i: int) -> MapCellType {
        if i == 1 {
            MapCellType::Moutains
        } else if i == 2 {
            MapCellType::Forest
        } else if i == 3 {
            MapCellType::Plains
        } else if i == 4 {
            MapCellType::Sand
        } else if i == 5 {
            MapCellType::Water
        } else if i == 6 {
            MapCellType::DeepWater
        } else if i == 7 {
            MapCellType::HighMountains
        } else {
            MapCellType::Undeclared
        }
    }

    /// The ordinal of the category, by which tables are indexed.
    pub fn index(&self) -> (i: usize)
        ensures
            i == self.ordinal(),
            i < MAPCELLTYPES,
    {
        match self {
            MapCellType::Undeclared => 0,
            MapCellType::Moutains => 1,
            MapCellType::Forest => 2,
            MapCellType::Plains => 3,
            MapCellType::Sand => 4,
            MapCellType::Water => 5,
            MapCellType::DeepWater => 6,
            MapCellType::HighMountains => 7,
        }
    }

    /// The category whose ordinal is `index`; `None` for an integer that is
    /// no ordinal.
    pub fn from_repr(index: usize) -> (r: Option<MapCellType>)
        ensures
            index < MAPCELLTYPES ==> r == Some(MapCellType::of_ordinal(index as int)),
            index >= MAPCELLTYPES ==> r.is_none(),
    {
        match index {
            0 => Some(MapCellType::Undeclared),
            1 => Some(MapCellType::Moutains),
            2 => Some(MapCellType::Forest),
            3 => Some(MapCellType::Plains),
            4 => Some(MapCellType::Sand),
            5 => Some(MapCellType::Water),
            6 => Some(MapCellType::DeepWater),
            7 => Some(MapCellType::HighMountains),
            _ => None,
        }
    }

    /// The built-in weight of this category beside `other_cell_type`.
    pub fn check_conflict(&self, other_cell_type: MapCellType) -> (w: usize)
        ensures
            w == standard_weight(*self, other_cell_type),
    {
        map_table(*self, other_cell_type)
    }

    /// The colour in which the category is drawn, as six hexadecimal digits.
    pub fn color(&self) -> (hex: &'static str)
        ensures
            hex@ == self.color_digits(),
    {
        match self {
            MapCellType::Undeclared => "000000",
            MapCellType::Moutains => "AEC2B6",
            MapCellType::Forest => "609966",
            MapCellType::HighMountains => "FFFFFF",
            MapCellType::Plains => "BBD6B8",
            MapCellType::Sand => "E7D4B5",
            MapCellType::DeepWater => "134B70",
            MapCellType::Water => "6096B4",
        }
    }

    /// The digits that `color` returns for the category.
    pub open spec fn color_digits(self) -> Seq<char> {
        match self {
            MapCellType::Undeclared => "000000"@,
            MapCellType::Moutains => "AEC2B6"@,
            MapCellType::Forest => "609966"@,
            MapCellType::HighMountains => "FFFFFF"@,
            MapCellType::Plains => "BBD6B8"@,
            MapCellType::Sand => "E7D4B5"@,
            MapCellType::DeepWater => "134B70"@,
            MapCellType::Water => "6096B4"@,
        }
    }
}

/// `of_ordinal` and `ordinal` are inverse to each other on the ordinals.
pub proof fn lemma_ordinal_round_trip(t: MapCellType, i: int)
    ensures
        0 <= t.ordinal() < MAPCELLTYPES,
        MapCellType::of_ordinal(t.ordinal()) == t,
        0 <= i < MAPCELLTYPES ==> MapCellType::of_ordinal(i).ordinal() == i,
{
}

/// The built-in weight between two categories.
pub fn map_table(cell_type: MapCellType, other_cell_type: MapCellType) -> (w: usize)
    ensures
        w == standard_weight(cell_type, other_cell_type),
{
    let row: [usize; 8] = match cell_type {
        MapCellType::Undeclared => [0, 0, 0, 0, 0, 0, 0, 0],
        MapCellType::Moutains => [0, 0, 0, 1, 1, 1, 1, 0],
        MapCellType::Forest => [0, 0, 0, 0, 1, 1, 1, 1],
        MapCellType::Plains => [0, 1, 0, 0, 0, 1, 1, 1],
        MapCellType::Sand => [0, 1, 1, 0, 0, 0, 1, 1],
        MapCellType::Water => [0, 1, 1, 1, 0, 0, 0, 1],
        MapCellType::DeepWater => [0, 1, 1, 1, 1, 0, 0, 1],
        MapCellType::HighMountains => [0, 0, 1, 1, 1, 1, 1, 0],
    };
    row[other_cell_type.index()]
}

/// The built-in table is symmetric, weighs nothing beside an unassigned
/// cell, and holds only the weights 0 and 1.
pub proof fn lemma_standard_weight_symmetric(a: MapCellType, b: MapCellType)
    ensures
        standard_weight(a, b) == standard_weight(b, a),
        standard_weight(MapCellType::Undeclared, b) == 0,
        standard_weight(a, MapCellType::Undeclared) == 0,
        0 <= standard_weight(a, b) <= 1,
{
}

} // verus!
