//! A dense two-dimensional array of cells, stored row by row.

use crate::error::DataError;
use vstd::prelude::*;

verus! {

/// What a matrix is: its rows, each `ncols` cells long.
pub struct MatrixView<T> {
    pub ncols: nat,
    pub rows: Seq<Seq<T>>,
}

impl<T> MatrixView<T> {
    /// Every row has `ncols` cells.
    pub open spec fn wf(self) -> bool {
        forall|r: int| 0 <= r < self.rows.len() ==> (#[trigger] self.rows[r]).len() == self.ncols
    }

    /// The number of rows.
    pub open spec fn nrows(self) -> nat {
        self.rows.len()
    }
}

/// The matrix of `nrows` rows and `ncols` columns whose cell `(r, c)` is
/// element `r * ncols + c` of `flat`.
pub open spec fn row_major<T>(flat: Seq<T>, nrows: nat, ncols: nat) -> MatrixView<T> {
    MatrixView {
        ncols,
        rows: Seq::new(nrows, |r: int| Seq::new(ncols, |c: int| flat[r * ncols + c])),
    }
}

/// The position of cell `(r, c)` in row-major order lies inside the storage.
pub(crate) proof fn lemma_cell_offset(r: int, c: int, nrows: int, ncols: int)
    requires
        0 <= r < nrows,
        0 <= c < ncols,
    ensures
        0 <= r * ncols <= r * ncols + c < nrows * ncols,
        r * ncols + c < (r + 1) * ncols,
{
    assert(r * ncols >= 0) by (nonlinear_arith)
        requires
            r >= 0,
            ncols >= 0,
    ;
    assert((r + 1) * ncols == r * ncols + ncols) by (nonlinear_arith);
    assert((r + 1) * ncols <= nrows * ncols) by (nonlinear_arith)
        requires
            r + 1 <= nrows,
            ncols >= 0,
    ;
}

/// Two cells share a row-major position only if they are the same cell.
proof fn lemma_cell_offset_injective(r1: int, c1: int, r2: int, c2: int, ncols: int)
    requires
        0 <= c1 < ncols,
        0 <= c2 < ncols,
        r1 * ncols + c1 == r2 * ncols + c2,
    ensures
        r1 == r2,
        c1 == c2,
{
    if r1 < r2 {
        assert(r2 * ncols >= (r1 + 1) * ncols) by (nonlinear_arith)
            requires
                r2 >= r1 + 1,
                ncols >= 0,
        ;
        assert((r1 + 1) * ncols == r1 * ncols + ncols) by (nonlinear_arith);
    } else if r2 < r1 {
        assert(r1 * ncols >= (r2 + 1) * ncols) by (nonlinear_arith)
            requires
                r1 >= r2 + 1,
                ncols >= 0,
        ;
        assert((r2 + 1) * ncols == r2 * ncols + ncols) by (nonlinear_arith);
    }
}

/// A position `k` below `nrows * ncols` that is `r * ncols + c` with `c` inside
/// a row lies in a row of the matrix.
proof fn lemma_offset_row(k: int, r: int, c: int, nrows: int, ncols: int)
    requires
        0 <= r,
        0 <= c < ncols,
        k == r * ncols + c,
        k < nrows * ncols,
    ensures
        r < nrows,
{
    if r >= nrows {
        assert(r * ncols >= nrows * ncols) by (nonlinear_arith)
            requires
                r >= nrows,
                ncols >= 0,
        ;
    }
}

/// A dense matrix. Cell `(r, c)` is kept at position `r * ncols + c`.
#[derive(Debug)]
pub struct FeatureMatrix<T> {
    nrows: usize,
    ncols: usize,
    values: Vec<T>,
}

impl<T> View for FeatureMatrix<T> {
    type V = MatrixView<T>;

    closed spec fn view(&self) -> MatrixView<T> {
        row_major(self.values@, self.nrows as nat, self.ncols as nat)
    }
}

impl<T> FeatureMatrix<T> {
    #[verifier::type_invariant]
    spec fn inv(self) -> bool {
        self.values@.len() == self.nrows * self.ncols
    }
}

impl<T: Copy> FeatureMatrix<T> {
    /// The view of a matrix is always well formed.
    pub proof fn lemma_view_wf(self)
        ensures
            self@.wf(),
    {
    }

    /// A matrix of the given shape with `value` in every cell; `None` when
    /// the number of cells does not fit the machine's index type.
    pub fn filled(nrows: usize, ncols: usize, value: T) -> (res: Option<Self>)
        ensures
            res is Some <==> nrows * ncols <= usize::MAX,
            res matches Some(m) ==> m@ == row_major(
                Seq::new((nrows * ncols) as nat, |i: int| value),
                nrows as nat,
                ncols as nat,
            ),
    {
        match nrows.checked_mul(ncols) {
            None => None,
            Some(total) => {
                let mut values: Vec<T> = Vec::new();
                let mut i: usize = 0;
                while i < total
                    invariant
                        i <= total,
                        values@ == Seq::new(i as nat, |k: int| value),
                    decreases total - i,
                {
                    values.push(value);
                    i = i + 1;
                }
                Some(FeatureMatrix { nrows, ncols, values })
            },
        }
    }

    /// The number of rows and the number of columns.
    pub fn shape(&self) -> (res: (usize, usize))
        ensures
            res.0 == self@.nrows(),
            res.1 == self@.ncols,
    {
        (self.nrows, self.ncols)
    }

    /// The cells in one sequence, row after row: the cell `(r, c)` stands
    /// at position `r * ncols + c`.
    pub fn values(&self) -> (flat: Vec<T>)
        ensures
            flat@.len() == self@.nrows() * self@.ncols,
            self@ == row_major(flat@, self@.nrows(), self@.ncols),
    {
        proof {
            use_type_invariant(self);
        }
        let mut flat: Vec<T> = Vec::new();
        let mut k: usize = 0;
        while k < self.values.len()
            invariant
                k <= self.values@.len(),
                flat@ == self.values@.take(k as int),
            decreases self.values@.len() - k,
        {
            flat.push(self.values[k]);
            assert(self.values@.take(k + 1) =~= self.values@.take(k as int).push(
                self.values@[k as int],
            ));
            k = k + 1;
        }
        assert(flat@ =~= self.values@);
        flat
    }

    /// The cell at `(row, col)`, or `None` outside the matrix.
    pub fn get(&self, row: usize, col: usize) -> (res: Option<T>)
        ensures
            res == if row < self@.nrows() && col < self@.ncols {
                Some(self@.rows[row as int][col as int])
            } else {
                None
            },
    {
        proof {
            use_type_invariant(self);
        }
        if row < self.nrows && col < self.ncols {
            let cells: usize = self.values.len();
            proof {
                lemma_cell_offset(row as int, col as int, self.nrows as int, self.ncols as int);
                assert(row * self.ncols + col < cells);
            }
            Some(self.values[row * self.ncols + col])
        } else {
            None
        }
    }

    /// Writes `value` into the cell at `(row, col)` and leaves every other
    /// cell as it was. Outside the matrix nothing changes and the result is
    /// `false`.
    pub fn set(&mut self, row: usize, col: usize, value: T) -> (done: bool)
        ensures
            done <==> row < old(self)@.nrows() && col < old(self)@.ncols,
            !done ==> final(self)@ == old(self)@,
            done ==> final(self)@ == (MatrixView {
                ncols: old(self)@.ncols,
                rows: old(self)@.rows.update(
                    row as int,
                    old(self)@.rows[row as int].update(col as int, value),
                ),
            }),
    {
        proof {
            use_type_invariant(&*self);
        }
        if row < self.nrows && col < self.ncols {
            let cells: usize = self.values.len();
            proof {
                lemma_cell_offset(row as int, col as int, self.nrows as int, self.ncols as int);
                assert(row * self.ncols + col < cells);
            }
            let at: usize = row * self.ncols + col;
            self.values[at] = value;
            proof {
                let ncols = self.ncols as int;
                let after = self@.rows;
                let expected = old(self)@.rows.update(
                    row as int,
                    old(self)@.rows[row as int].update(col as int, value),
                );
                assert(after.len() == expected.len());
                assert forall|r: int| 0 <= r < after.len() implies after[r] == expected[r] by {
                    assert(after[r].len() == expected[r].len());
                    assert forall|c: int| 0 <= c < after[r].len() implies after[r][c]
                        == expected[r][c] by {
                        lemma_cell_offset(r, c, self.nrows as int, ncols);
                        if r * ncols + c == at as int {
                            lemma_cell_offset_injective(r, c, row as int, col as int, ncols);
                        }
                    }
                    assert(after[r] =~= expected[r]);
                }
                assert(after =~= expected);
            }
            true
        } else {
            false
        }
    }

    /// Threads a flat sequence of cells into a matrix of `nrows` rows and
    /// `ncols` columns. The cells are taken in order; a row index and a column
    /// index say where the next one goes: the column index moves on with
    /// every cell and, after the last column, starts again in the next row.
    /// Cell `(r, c)` of the result is therefore element `r * ncols + c` of
    /// `flat`. The counts must fit: `flat` holds exactly `nrows * ncols` cells,
    /// else nothing is built.
    pub fn fill_row_major(flat: &Vec<T>, nrows: usize, ncols: usize) -> (res: Result<
        Self,
        DataError,
    >)
        ensures
            res is Ok <==> flat@.len() == nrows * ncols,
            res matches Ok(m) ==> m@ == row_major(flat@, nrows as nat, ncols as nat),
            res matches Err(e) ==> e == DataError::ShapeMismatch,
    {
        let total: usize = flat.len();
        match nrows.checked_mul(ncols) {
            None => {
                return Err(DataError::ShapeMismatch);
            },
            Some(cells) => {
                if cells != total {
                    return Err(DataError::ShapeMismatch);
                }
            },
        }
        if total == 0 {
            let empty = FeatureMatrix { nrows, ncols, values: Vec::new() };
            proof {
                assert(empty@.rows =~= row_major(flat@, nrows as nat, ncols as nat).rows) by {
                    assert forall|r: int| 0 <= r < nrows implies (#[trigger] empty@.rows[r])
                        =~= row_major(flat@, nrows as nat, ncols as nat).rows[r] by {
                        if ncols > 0 {
                            lemma_cell_offset(r, 0, nrows as int, ncols as int);
                        }
                    }
                }
            }
            return Ok(empty);
        }
        let mut matrix = match Self::filled(nrows, ncols, flat[0]) {
            Some(m) => m,
            None => {
                return Err(DataError::ShapeMismatch);
            },
        };
        let mut row: usize = 0;
        let mut col: usize = 0;
        let mut k: usize = 0;
        while k < total
            invariant
                total == flat@.len(),
                total == nrows * ncols,
                0 < ncols,
                k <= total,
                col < ncols,
                k == row * ncols + col,
                matrix@.ncols == ncols,
                matrix@.rows.len() == nrows,
                matrix@.wf(),
                forall|r: int, c: int|
                    0 <= r < nrows && 0 <= c < ncols && r * ncols + c < k
                        ==> (#[trigger] matrix@.rows[r][c]) == flat@[r * ncols + c],
            decreases total - k,
        {
            proof {
                lemma_offset_row(k as int, row as int, col as int, nrows as int, ncols as int);
            }
            let ghost before = matrix@;
            let done = matrix.set(row, col, flat[k]);
            assert(done);
            proof {
                assert forall|r: int, c: int|
                    0 <= r < nrows && 0 <= c < ncols && r * ncols + c < k + 1 implies (
                #[trigger] matrix@.rows[r][c]) == flat@[r * ncols + c] by {
                    if r * ncols + c == k {
                        lemma_cell_offset_injective(r, c, row as int, col as int, ncols as int);
                    } else {
                        assert(before.rows[r][c] == flat@[r * ncols + c]);
                    }
                }
                assert((row + 1) * ncols == row * ncols + ncols) by (nonlinear_arith);
            }
            if col == ncols - 1 {
                row = row + 1;
                col = 0;
            } else {
                col = col + 1;
            }
            k = k + 1;
        }
        proof {
            let want = row_major(flat@, nrows as nat, ncols as nat);
            assert forall|r: int| 0 <= r < nrows implies (#[trigger] matrix@.rows[r])
                =~= want.rows[r] by {
                assert forall|c: int| 0 <= c < ncols implies matrix@.rows[r][c]
                    == want.rows[r][c] by {
                    lemma_cell_offset(r, c, nrows as int, ncols as int);
                }
            }
            assert(matrix@.rows =~= want.rows);
        }
        Ok(matrix)
    }
}

} // verus!
