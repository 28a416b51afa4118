//! The conflict table: a symmetric matrix of weights between terrain
//! categories, fixed once it is built.

use vstd::prelude::*;
use crate::terrain::{
    lemma_ordinal_round_trip, lemma_standard_weight_symmetric, standard_weight, MapCellType,
    MAPCELLTYPES,
};

verus! {

/// Largest weight a conflict table accepts. It keeps the sum over one
/// neighbourhood window inside `usize` on every platform.
pub const MAX_WEIGHT: usize = 1_000_000;

/// Why a matrix of weights was not accepted as a conflict table.
#[derive(Debug, Clone, Copy, PartialEq, Eq, Structural)]
pub enum TableError {
    /// The matrix has no row: there is no terrain to assign.
    Empty,
    /// The matrix has more rows than there are declared categories.
    TooManyTypes,
    /// Some row is not as long as the matrix is high.
    NotSquare,
    /// Some weight is above `MAX_WEIGHT`.
    WeightTooLarge,
    /// Some weight differs from the one at the mirrored position.
    NotSymmetric,
}

/// Every row of `d` is as long as `d` itself.
pub open spec fn is_square(d: Seq<Seq<usize>>) -> bool {
    forall|i: int| 0 <= i < d.len() ==> (#[trigger] d[i]).len() == d.len()
}

/// No weight of the square matrix `d` is above `MAX_WEIGHT`.
pub open spec fn within_weight_limit(d: Seq<Seq<usize>>) -> bool {
    forall|i: int, j: int|
        0 <= i < d.len() && 0 <= j < d.len() ==> (#[trigger] d[i][j]) <= MAX_WEIGHT
}

/// The square matrix `d` equals its transpose.
pub open spec fn is_symmetric(d: Seq<Seq<usize>>) -> bool {
    forall|i: int, j: int| 0 <= i < d.len() && 0 <= j < d.len() ==> d[i][j] == d[j][i]
}

/// The first reason, in the order of `TableError`, for which the matrix `d`
/// over the declared categories is refused; `None` when it is accepted.
pub open spec fn rejection(d: Seq<Seq<usize>>) -> Option<TableError> {
    if d.len() == 0 {
        Some(TableError::Empty)
    } else if d.len() > MAPCELLTYPES - 1 {
        Some(TableError::TooManyTypes)
    } else if !is_square(d) {
        Some(TableError::NotSquare)
    } else if !within_weight_limit(d) {
        Some(TableError::WeightTooLarge)
    } else if !is_symmetric(d) {
        Some(TableError::NotSymmetric)
    } else {
        None
    }
}

/// The weight between the categories of ordinals `a` and `b` in the table
/// made from the matrix `d` over the declared categories: row and column
/// `i` of `d` belong to the category of ordinal `i + 1`, and every pair that
/// `d` does not cover weighs nothing.
pub open spec fn embedded_weight(d: Seq<Seq<usize>>, a: int, b: int) -> int {
    if 1 <= a <= d.len() && 1 <= b <= d.len() {
        d[a - 1][b - 1] as int
    } else {
        0
    }
}

/// The rows of `declared` as sequences.
proof fn lemma_rows(declared: &Vec<Vec<usize>>)
    ensures
        declared.deep_view().len() == declared@.len(),
        forall|i: int|
            0 <= i < declared@.len() ==> (#[trigger] declared.deep_view()[i]) == declared@[i]@,
{
    assert forall|i: int| 0 <= i < declared@.len() implies (#[trigger] declared.deep_view()[i])
        == declared@[i]@ by {}
}

/// Whether every row is as long as the matrix is high.
fn rows_are_square(declared: &Vec<Vec<usize>>) -> (b: bool)
    ensures
        b == is_square(declared.deep_view()),
{
    let ghost d = declared.deep_view();
    let k = declared.len();
    let mut i: usize = 0;
    while i < k
        invariant
            0 <= i <= k,
            k == declared.len(),
            d == declared.deep_view(),
            forall|r: int| 0 <= r < i ==> (#[trigger] d[r]).len() == k,
        decreases k - i,
    {
        proof {
            lemma_rows(declared);
        }
        if declared[i].len() != k {
            assert(d[i as int].len() != d.len());
            return false;
        }
        i += 1;
    }
    true
}

/// Whether no weight of the square matrix is above `MAX_WEIGHT`.
fn rows_are_within_limit(declared: &Vec<Vec<usize>>) -> (b: bool)
    requires
        is_square(declared.deep_view()),
    ensures
        b == within_weight_limit(declared.deep_view()),
{
    let ghost d = declared.deep_view();
    let k = declared.len();
    let mut i: usize = 0;
    while i < k
        invariant
            0 <= i <= k,
            k == declared.len(),
            d == declared.deep_view(),
            is_square(d),
            forall|r: int, c: int| 0 <= r < i && 0 <= c < k ==> (#[trigger] d[r][c]) <= MAX_WEIGHT,
        decreases k - i,
    {
        let mut j: usize = 0;
        while j < k
            invariant
                0 <= i < k,
                0 <= j <= k,
                k == declared.len(),
                d == declared.deep_view(),
                is_square(d),
                forall|r: int, c: int|
                    0 <= r < i && 0 <= c < k ==> (#[trigger] d[r][c]) <= MAX_WEIGHT,
                forall|c: int| 0 <= c < j ==> (#[trigger] d[i as int][c]) <= MAX_WEIGHT,
            decreases k - j,
        {
            proof {
                lemma_rows(declared);
                assert(d[i as int].len() == k);
            }
            if declared[i][j] > MAX_WEIGHT {
                return false;
            }
            j += 1;
        }
        i += 1;
    }
    true
}

/// Whether the square matrix equals its transpose.
fn rows_are_symmetric(declared: &Vec<Vec<usize>>) -> (b: bool)
    requires
        is_square(declared.deep_view()),
    ensures
        b == is_symmetric(declared.deep_view()),
{
    let ghost d = declared.deep_view();
    let k = declared.len();
    let mut i: usize = 0;
    while i < k
        invariant
            0 <= i <= k,
            k == declared.len(),
            d == declared.deep_view(),
            is_square(d),
            forall|r: int, c: int| 0 <= r < i && 0 <= c < k ==> d[r][c] == d[c][r],
        decreases k - i,
    {
        let mut j: usize = 0;
        while j < k
            invariant
                0 <= i < k,
                0 <= j <= k,
                k == declared.len(),
                d == declared.deep_view(),
                is_square(d),
                forall|r: int, c: int| 0 <= r < i && 0 <= c < k ==> d[r][c] == d[c][r],
                forall|c: int| 0 <= c < j ==> d[i as int][c] == d[c][i as int],
            decreases k - j,
        {
            proof {
                lemma_rows(declared);
                assert(d[i as int].len() == k && d[j as int].len() == k);
            }
            if declared[i][j] != declared[j][i] {
                return false;
            }
            j += 1;
        }
        i += 1;
    }
    true
}

/// The accepted matrix over the declared categories, laid out over all
/// categories: one row per category, each with one weight per category.
fn embed_rows(declared: &Vec<Vec<usize>>) -> (weights: Vec<Vec<usize>>)
    requires
        1 <= declared.len() <= MAPCELLTYPES - 1,
        is_square(declared.deep_view()),
    ensures
        weights@.len() == MAPCELLTYPES,
        forall|r: int| 0 <= r < MAPCELLTYPES ==> (#[trigger] weights@[r])@.len() == MAPCELLTYPES,
        forall|r: int, c: int|
            0 <= r < MAPCELLTYPES && 0 <= c < MAPCELLTYPES ==> (#[trigger] weights@[r]@[c])
                == embedded_weight(declared.deep_view(), r, c),
{
    let ghost d = declared.deep_view();
    let k = declared.len();
    let mut weights: Vec<Vec<usize>> = Vec::new();
    let mut a: usize = 0;
    while a < MAPCELLTYPES
        invariant
            0 <= a <= MAPCELLTYPES,
            1 <= k <= MAPCELLTYPES - 1,
            k == declared.len(),
            d == declared.deep_view(),
            is_square(d),
            weights@.len() == a,
            forall|r: int| 0 <= r < a ==> (#[trigger] weights@[r])@.len() == MAPCELLTYPES,
            forall|r: int, c: int|
                0 <= r < a && 0 <= c < MAPCELLTYPES ==> (#[trigger] weights@[r]@[c])
                    == embedded_weight(d, r, c),
        decreases MAPCELLTYPES - a,
    {
        let mut row: Vec<usize> = Vec::new();
        let mut b: usize = 0;
        while b < MAPCELLTYPES
            invariant
                0 <= a < MAPCELLTYPES,
                0 <= b <= MAPCELLTYPES,
                1 <= k <= MAPCELLTYPES - 1,
                k == declared.len(),
                d == declared.deep_view(),
                is_square(d),
                row@.len() == b,
                forall|c: int|
                    0 <= c < b ==> (#[trigger] row@[c]) == embedded_weight(d, a as int, c),
            decreases MAPCELLTYPES - b,
        {
            if 1 <= a && a <= k && 1 <= b && b <= k {
                proof {
                    lemma_rows(declared);
                    assert(d[a - 1].len() == k);
                }
                row.push(declared[a - 1][b - 1]);
            } else {
                row.push(0);
            }
            b += 1;
        }
        weights.push(row);
        a += 1;
    }
    weights
}

/// Weights between every two terrain categories. Ordinals from `type_count`
/// on belong to categories that the table does not hand out.
#[derive(Debug)]
pub struct ConflictTable {
    weights: Vec<Vec<usize>>,
    type_count: usize,
}

impl ConflictTable {
    /// The weight incurred when a cell of category `a` lies beside one of
    /// category `b`.
    pub closed spec fn weight(&self, a: MapCellType, b: MapCellType) -> int {
        self.weights@[a.ordinal()]@[b.ordinal()] as int
    }

    /// One more than the number of categories that the table hands out: the
    /// candidates of a relaxation pass have the ordinals `1..type_count`.
    pub closed spec fn spec_type_count(&self) -> int {
        self.type_count as int
    }

    /// The storage holds one row per category, each with one weight per
    /// category.
    pub closed spec fn full(&self) -> bool {
        &&& self.weights@.len() == MAPCELLTYPES
        &&& forall|i: int|
            0 <= i < MAPCELLTYPES ==> (#[trigger] self.weights@[i])@.len() == MAPCELLTYPES
    }

    /// The invariant of a table: it is symmetric, an unassigned cell
    /// conflicts with nothing, no weight is above `MAX_WEIGHT`, and only the
    /// categories that the table hands out carry weight.
    #[verifier::type_invariant]
    pub open spec fn wf(&self) -> bool {
        &&& self.full()
        &&& 2 <= self.spec_type_count() <= MAPCELLTYPES
        &&& forall|a: MapCellType, b: MapCellType| #[trigger] self.weight(a, b) == self.weight(b, a)
        &&& forall|b: MapCellType| #[trigger] self.weight(MapCellType::Undeclared, b) == 0
        &&& forall|a: MapCellType, b: MapCellType| 0 <= #[trigger] self.weight(a, b) <= MAX_WEIGHT
        &&& forall|a: MapCellType, b: MapCellType|
            a.ordinal() >= self.spec_type_count() || b.ordinal() >= self.spec_type_count()
                ==> #[trigger] self.weight(a, b) == 0
    }

    /// Builds a table from the square matrix `declared` over the declared
    /// categories: row and column `i` belong to the category of ordinal
    /// `i + 1`. The matrix is refused unless it has between one and seven
    /// rows, is square and symmetric, and holds no weight above `MAX_WEIGHT`.
    pub fn new(declared: Vec<Vec<usize>>) -> (r: Result<ConflictTable, TableError>)
        ensures
            r is Ok <==> rejection(declared.deep_view()) is None,
            r matches Err(e) ==> rejection(declared.deep_view()) == Some(e),
            r matches Ok(t) ==> {
                &&& t.wf()
                &&& t.spec_type_count() == declared.len() + 1
                &&& forall|a: MapCellType, b: MapCellType| #[trigger]
                    t.weight(a, b) == embedded_weight(
                        declared.deep_view(),
                        a.ordinal(),
                        b.ordinal(),
                    )
            },
    {
        let ghost d = declared.deep_view();
        if declared.len() == 0 {
            return Err(TableError::Empty);
        }
        if declared.len() > MAPCELLTYPES - 1 {
            return Err(TableError::TooManyTypes);
        }
        if !rows_are_square(&declared) {
            return Err(TableError::NotSquare);
        }
        if !rows_are_within_limit(&declared) {
            return Err(TableError::WeightTooLarge);
        }
        if !rows_are_symmetric(&declared) {
            return Err(TableError::NotSymmetric);
        }
        let weights = embed_rows(&declared);
        let type_count = declared.len() + 1;
        proof {
            let table = ConflictTable { weights, type_count };
            assert forall|a: MapCellType, b: MapCellType| #[trigger]
                table.weight(a, b) == embedded_weight(d, a.ordinal(), b.ordinal()) by {
                assert(table.weights@[a.ordinal()]@[b.ordinal()] == embedded_weight(
                    d,
                    a.ordinal(),
                    b.ordinal(),
                ));
            }
            assert forall|a: MapCellType, b: MapCellType| #[trigger]
                table.weight(a, b) == table.weight(b, a) by {}
        }
        Ok(ConflictTable { weights, type_count })
    }

    /// The built-in table over all seven declared categories.
    pub fn standard() -> (t: ConflictTable)
        ensures
            t.wf(),
            t.spec_type_count() == MAPCELLTYPES,
            forall|a: MapCellType, b: MapCellType| #[trigger]
                t.weight(a, b) == standard_weight(a, b),
    {
        let weights: Vec<Vec<usize>> = vec![
            vec![0, 0, 0, 0, 0, 0, 0, 0],
            vec![0, 0, 0, 1, 1, 1, 1, 0],
            vec![0, 0, 0, 0, 1, 1, 1, 1],
            vec![0, 1, 0, 0, 0, 1, 1, 1],
            vec![0, 1, 1, 0, 0, 0, 1, 1],
            vec![0, 1, 1, 1, 0, 0, 0, 1],
            vec![0, 1, 1, 1, 1, 0, 0, 1],
            vec![0, 0, 1, 1, 1, 1, 1, 0],
        ];
        proof {
            let table = ConflictTable { weights, type_count: MAPCELLTYPES };
            assert forall|a: MapCellType, b: MapCellType| #[trigger]
                table.weight(a, b) == standard_weight(a, b) by {
                lemma_ordinal_round_trip(a, 0);
                lemma_ordinal_round_trip(b, 0);
            }
            assert forall|a: MapCellType, b: MapCellType| #[trigger]
                table.weight(a, b) == table.weight(b, a) by {
                lemma_standard_weight_symmetric(a, b);
            }
            assert forall|a: MapCellType, b: MapCellType| 0 <= #[trigger] table.weight(a, b)
                <= MAX_WEIGHT by {
                lemma_standard_weight_symmetric(a, b);
            }
            assert forall|b: MapCellType| #[trigger]
                table.weight(MapCellType::Undeclared, b) == 0 by {
                lemma_standard_weight_symmetric(b, b);
            }
        }
        ConflictTable { weights, type_count: MAPCELLTYPES }
    }

    /// One more than the number of categories that the table hands out.
    pub fn type_count(&self) -> (n: usize)
        ensures
            n == self.spec_type_count(),
            2 <= n <= MAPCELLTYPES,
    {
        proof {
            use_type_invariant(self);
        }
        self.type_count
    }

    /// The weight incurred when a cell of category `a` lies beside one of
    /// category `b`.
    pub fn get(&self, a: MapCellType, b: MapCellType) -> (w: usize)
        ensures
            w == self.weight(a, b),
            w <= MAX_WEIGHT,
    {
        proof {
            use_type_invariant(self);
            assert(0 <= self.weight(a, b) <= MAX_WEIGHT);
        }
        self.weights[a.index()][b.index()]
    }
}

/// Adjacency conflict is symmetric, and an unassigned cell conflicts with
/// nothing: `weight(a, b) == weight(b, a)` and `weight(Undeclared, b) == 0`
/// in every well-formed table.
pub proof fn lemma_table_symmetric(t: ConflictTable, a: MapCellType, b: MapCellType)
    requires
        t.wf(),
    ensures
        t.weight(a, b) == t.weight(b, a),
        t.weight(MapCellType::Undeclared, b) == 0,
        t.weight(a, MapCellType::Undeclared) == 0,
        0 <= t.weight(a, b) <= MAX_WEIGHT,
{
}

} // verus!
