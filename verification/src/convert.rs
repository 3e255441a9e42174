//! From a table of numbers to a dense matrix.
//!
//! A table keeps its cells column by column. The matrix wants them row by
//! row. The conversion first writes the cells out in one flat sequence, row
//! after row, and then threads that sequence into the matrix.

use crate::error::DataError;
use crate::matrix::{lemma_cell_offset, FeatureMatrix, MatrixView};
use crate::table::{row_complete, Column, ColumnKind, Table, TableView, Value};
use vstd::prelude::*;

verus! {

/// The number that a cell holds.
pub open spec fn number_of<T>(value: Value<T>) -> T
    recommends
        value is Number,
{
    match value {
        Value::Number(number) => number,
        _ => arbitrary(),
    }
}

/// Every column of the table holds numbers.
pub open spec fn all_numeric<T>(table: TableView<T>) -> bool {
    forall|c: int| 0 <= c < table.width() ==> (#[trigger] table.fields[c]).kind == ColumnKind::Number
}

/// No cell of the table is missing.
pub open spec fn all_present<T>(table: TableView<T>) -> bool {
    forall|r: int| 0 <= r < table.height() ==> row_complete(#[trigger] table.rows[r])
}

/// The matrix of a table of numbers: as many rows and columns as the
/// table, and in cell `(r, c)` the number of row `r`, column `c`. A table
/// with a text column has none, nor has one with a missing cell.
pub open spec fn feature_matrix<T>(table: TableView<T>) -> Result<MatrixView<T>, DataError> {
    if !all_numeric(table) {
        Err(DataError::NotNumeric)
    } else if !all_present(table) {
        Err(DataError::MissingValue)
    } else {
        Ok(
            MatrixView {
                ncols: table.width(),
                rows: Seq::new(
                    table.height(),
                    |r: int| Seq::new(table.width(), |c: int| number_of(table.rows[r][c])),
                ),
            },
        )
    }
}

/// Reading the matrix of a table at `(r, c)` gives back what the table has
/// in row `r`, column `c`; the matrix has the table's shape.
pub proof fn lemma_round_trip<T>(table: TableView<T>, r: int, c: int)
    requires
        table.wf(),
        feature_matrix(table) is Ok,
        0 <= r < table.height(),
        0 <= c < table.width(),
    ensures
        feature_matrix(table)->Ok_0.wf(),
        feature_matrix(table)->Ok_0.nrows() == table.height(),
        feature_matrix(table)->Ok_0.ncols == table.width(),
        table.rows[r][c] == Value::Number(feature_matrix(table)->Ok_0.rows[r][c]),
{
    assert(table.fields[c].kind == ColumnKind::Number);
    assert(row_complete(table.rows[r]));
    assert(table.rows[r][c].fits(table.fields[c].kind));
    assert(!(table.rows[r][c] is Missing));
}

/// Whether every column of the table holds numbers.
fn has_only_numbers<T: Copy>(table: &Table<T>) -> (res: bool)
    ensures
        res == all_numeric(table@),
{
    let width: usize = table.width();
    let mut c: usize = 0;
    while c < width
        invariant
            c <= width,
            width == table@.width(),
            forall|j: int| 0 <= j < c ==> (#[trigger] table@.fields[j]).kind == ColumnKind::Number,
        decreases width - c,
    {
        match table.column_at(c).kind() {
            ColumnKind::Number => {},
            ColumnKind::Text => {
                assert(table@.fields[c as int].kind != ColumnKind::Number);
                return false;
            },
        }
        c = c + 1;
    }
    true
}

/// The cells of a table of numbers in one sequence, row after row: the
/// cell of row `r`, column `c` stands at position `r * width + c`.
pub fn to_row_major<T: Copy>(table: &Table<T>) -> (res: Result<Vec<T>, DataError>)
    ensures
        match res {
            Ok(flat) => {
                &&& feature_matrix(table@) is Ok
                &&& flat@.len() == table@.height() * table@.width()
                &&& forall|r: int, c: int|
                    0 <= r < table@.height() && 0 <= c < table@.width() ==> flat@[r
                        * table@.width() + c] == number_of(#[trigger] table@.rows[r][c])
            },
            Err(e) => feature_matrix(table@) == Err::<MatrixView<T>, DataError>(e),
        },
{
    if !has_only_numbers(table) {
        return Err(DataError::NotNumeric);
    }
    let height: usize = table.height();
    let width: usize = table.width();
    let mut flat: Vec<T> = Vec::new();
    let mut r: usize = 0;
    while r < height
        invariant
            r <= height,
            height == table@.height(),
            width == table@.width(),
            all_numeric(table@),
            flat@.len() == r * width,
            forall|i: int| 0 <= i < r ==> row_complete(#[trigger] table@.rows[i]),
            forall|i: int, j: int|
                0 <= i < r && 0 <= j < width ==> flat@[i * width + j] == number_of(
                    #[trigger] table@.rows[i][j],
                ),
        decreases height - r,
    {
        let mut c: usize = 0;
        while c < width
            invariant
                r < height,
                c <= width,
                height == table@.height(),
                width == table@.width(),
                all_numeric(table@),
                flat@.len() == r * width + c,
                forall|j: int| 0 <= j < c ==> !((#[trigger] table@.rows[r as int][j]) is Missing),
                forall|i: int, j: int|
                    0 <= i < r && 0 <= j < width ==> flat@[i * width + j] == number_of(
                        #[trigger] table@.rows[i][j],
                    ),
                forall|j: int|
                    0 <= j < c ==> flat@[r * width + j] == number_of(
                        #[trigger] table@.rows[r as int][j],
                    ),
            decreases width - c,
        {
            let ghost before = flat@;
            match table.column_at(c) {
                Column::Number(cells) => {
                    match cells[r] {
                        Some(number) => {
                            flat.push(number);
                        },
                        None => {
                            proof {
                                table.lemma_view_wf();
                            }
                            assert(table@.rows[r as int][c as int] is Missing);
                            assert(!row_complete(table@.rows[r as int]));
                            return Err(DataError::MissingValue);
                        },
                    }
                },
                Column::Text(_) => {
                    assert(table@.fields[c as int].kind == ColumnKind::Number);
                    assert(false);
                    return Err(DataError::NotNumeric);
                },
            }
            proof {
                assert forall|i: int, j: int| 0 <= i < r && 0 <= j < width implies flat@[i * width
                    + j] == number_of(#[trigger] table@.rows[i][j]) by {
                    lemma_cell_offset(i, j, r as int, width as int);
                    assert(before[i * width + j] == number_of(table@.rows[i][j]));
                }
            }
            c = c + 1;
        }
        proof {
            assert((r + 1) * width == r * width + width) by (nonlinear_arith);
            assert(table@.rows[r as int].len() == width) by {
                table.lemma_view_wf();
            }
        }
        r = r + 1;
    }
    Ok(flat)
}

/// The dense matrix of a table of numbers. It has the table's shape, and
/// its cell `(r, c)` is the number that the table has in row `r`, column
/// `c`. A table with a text column is refused, and so is one with a missing
/// cell: the matrix has no place for either.
pub fn convert_features_to_matrix<T: Copy>(table: &Table<T>) -> (res: Result<
    FeatureMatrix<T>,
    DataError,
>)
    ensures
        match res {
            Ok(matrix) => feature_matrix(table@) == Ok::<MatrixView<T>, DataError>(matrix@),
            Err(e) => feature_matrix(table@) == Err::<MatrixView<T>, DataError>(e),
        },
        res is Ok <==> all_numeric(table@) && all_present(table@),
{
    let nrows: usize = table.height();
    let ncols: usize = table.width();
    let flat = match to_row_major(table) {
        Ok(flat) => flat,
        Err(e) => {
            return Err(e);
        },
    };
    match FeatureMatrix::fill_row_major(&flat, nrows, ncols) {
        Ok(matrix) => {
            proof {
                let want = feature_matrix(table@)->Ok_0;
                assert forall|r: int| 0 <= r < nrows implies (#[trigger] matrix@.rows[r])
                    =~= want.rows[r] by {
                    assert forall|c: int| 0 <= c < ncols implies matrix@.rows[r][c]
                        == want.rows[r][c] by {
                        assert(flat@[r * ncols + c] == number_of(table@.rows[r][c]));
                    }
                }
                assert(matrix@.rows =~= want.rows);
            }
            Ok(matrix)
        },
        Err(e) => {
            assert(false);
            Err(e)
        },
    }
}

} // verus!
