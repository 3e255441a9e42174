//! A table: named columns of text or numbers, aligned by row, in which any
//! cell may be missing.

use crate::error::DataError;
use vstd::prelude::*;

verus! {

/// What a column holds.
#[derive(Clone, Copy, Debug, PartialEq, Eq, Structural)]
pub enum ColumnKind {
    Text,
    Number,
}

/// What a cell is.
pub enum Value<T> {
    Missing,
    Text(Seq<char>),
    Number(T),
}

impl<T> Value<T> {
    /// A missing cell fits every column; a present one fits a column of its
    /// own kind.
    pub open spec fn fits(self, kind: ColumnKind) -> bool {
        match self {
            Value::Missing => true,
            Value::Text(_) => kind == ColumnKind::Text,
            Value::Number(_) => kind == ColumnKind::Number,
        }
    }
}

/// The name and the kind of a column.
pub struct FieldView {
    pub name: Seq<char>,
    pub kind: ColumnKind,
}

/// The name and the kind that a column is to have.
#[derive(Debug)]
pub struct Field {
    pub name: String,
    pub kind: ColumnKind,
}

impl View for Field {
    type V = FieldView;

    open spec fn view(&self) -> FieldView {
        FieldView { name: self.name@, kind: self.kind }
    }
}

/// What each field of a schema asks for.
pub open spec fn field_views(fields: Seq<Field>) -> Seq<FieldView> {
    Seq::new(fields.len(), |c: int| fields[c]@)
}

/// What a table is: its columns' names and kinds, and its rows, each a
/// sequence of one cell per column.
pub struct TableView<T> {
    pub fields: Seq<FieldView>,
    pub rows: Seq<Seq<Value<T>>>,
}

/// No cell of the row is missing.
pub open spec fn row_complete<T>(row: Seq<Value<T>>) -> bool {
    forall|c: int| 0 <= c < row.len() ==> !((#[trigger] row[c]) is Missing)
}

impl<T> TableView<T> {
    /// The number of columns.
    pub open spec fn width(self) -> nat {
        self.fields.len()
    }

    /// The number of rows.
    pub open spec fn height(self) -> nat {
        self.rows.len()
    }

    /// Every row has one cell per column, of the column's kind or missing.
    pub open spec fn wf(self) -> bool {
        forall|r: int|
            0 <= r < self.rows.len() ==> {
                &&& (#[trigger] self.rows[r]).len() == self.fields.len()
                &&& forall|c: int|
                    0 <= c < self.fields.len() ==> (#[trigger] self.rows[r][c]).fits(
                        self.fields[c].kind,
                    )
            }
    }

    /// The rows without a missing cell, in their order, under the same
    /// columns.
    pub open spec fn drop_nulls(self) -> TableView<T> {
        TableView { fields: self.fields, rows: self.rows.filter(|row: Seq<Value<T>>| row_complete(row)) }
    }

    /// Of the filtered table: no cell of any row that is left is missing;
    /// the columns are the same; no row was added, every row without a
    /// missing cell is still there, and a well-formed table stays so.
    pub proof fn lemma_drop_nulls(self)
        ensures
            forall|r: int|
                0 <= r < self.drop_nulls().height() ==> row_complete(
                    #[trigger] self.drop_nulls().rows[r],
                ),
            self.drop_nulls().fields == self.fields,
            self.drop_nulls().height() <= self.height(),
            forall|r: int|
                0 <= r < self.height() && row_complete(self.rows[r])
                    ==> self.drop_nulls().rows.contains(#[trigger] self.rows[r]),
            self.wf() ==> self.drop_nulls().wf(),
    {
        let pred = |row: Seq<Value<T>>| row_complete(row);
        let left = self.rows.filter(pred);
        self.rows.lemma_filter_len(pred);
        assert forall|r: int| 0 <= r < left.len() implies row_complete(#[trigger] left[r]) by {
            self.rows.lemma_filter_pred(pred, r);
        }
        assert forall|r: int| 0 <= r < self.rows.len() && row_complete(
            self.rows[r],
        ) implies left.contains(#[trigger] self.rows[r]) by {
            self.rows.lemma_filter_contains(pred, r);
        }
        if self.wf() {
            assert forall|r: int| 0 <= r < left.len() implies {
                &&& (#[trigger] left[r]).len() == self.fields.len()
                &&& forall|c: int|
                    0 <= c < self.fields.len() ==> (#[trigger] left[r][c]).fits(self.fields[c].kind)
            } by {
                assert(left.contains(left[r]));
                self.rows.lemma_filter_contains_rev(pred, left[r]);
                let i = choose|i: int| 0 <= i < self.rows.len() && self.rows[i] == left[r];
                assert(self.rows[i].len() == self.fields.len());
            }
        }
    }

    /// Column `i` is the first one called `name`.
    pub open spec fn is_first(self, name: Seq<char>, i: int) -> bool {
        &&& 0 <= i < self.fields.len()
        &&& self.fields[i].name == name
        &&& forall|j: int| 0 <= j < i ==> (#[trigger] self.fields[j]).name != name
    }

    /// Some column is called `name`.
    pub open spec fn has_column(self, name: Seq<char>) -> bool {
        exists|i: int| self.is_first(name, i)
    }

    /// The first column called `name`.
    pub open spec fn column_of(self, name: Seq<char>) -> int {
        choose|i: int| self.is_first(name, i)
    }

    /// The table made of the columns called by `names`, in that order, with
    /// every row kept; a name that no column carries makes it fail.
    pub open spec fn select(self, names: Seq<Seq<char>>) -> Result<TableView<T>, DataError> {
        if forall|k: int| 0 <= k < names.len() ==> self.has_column(#[trigger] names[k]) {
            Ok(
                TableView {
                    fields: Seq::new(names.len(), |k: int| self.fields[self.column_of(names[k])]),
                    rows: Seq::new(
                        self.rows.len(),
                        |r: int|
                            Seq::new(names.len(), |k: int| self.rows[r][self.column_of(names[k])]),
                    ),
                },
            )
        } else {
            Err(DataError::ColumnNotFound)
        }
    }
}

/// A column of a table, cell by cell from the first row on.
#[derive(Debug)]
pub enum Column<T> {
    Text(Vec<Option<String>>),
    Number(Vec<Option<T>>),
}

impl<T> Column<T> {
    /// The number of cells.
    pub open spec fn spec_len(&self) -> nat {
        match self {
            Column::Text(cells) => cells@.len(),
            Column::Number(cells) => cells@.len(),
        }
    }

    /// Whether the column holds text or numbers.
    pub open spec fn spec_kind(&self) -> ColumnKind {
        match self {
            Column::Text(_) => ColumnKind::Text,
            Column::Number(_) => ColumnKind::Number,
        }
    }

    /// The cell in row `r`.
    pub open spec fn value(&self, r: int) -> Value<T> {
        match self {
            Column::Text(cells) => match cells@[r] {
                Some(text) => Value::Text(text@),
                None => Value::Missing,
            },
            Column::Number(cells) => match cells@[r] {
                Some(number) => Value::Number(number),
                None => Value::Missing,
            },
        }
    }

    /// The cells from the first row on.
    pub open spec fn values(&self) -> Seq<Value<T>> {
        Seq::new(self.spec_len(), |r: int| self.value(r))
    }

    /// The number of cells.
    pub fn len(&self) -> (n: usize)
        ensures
            n == self.spec_len(),
    {
        match self {
            Column::Text(cells) => cells.len(),
            Column::Number(cells) => cells.len(),
        }
    }

    /// Whether the column holds text or numbers.
    pub fn kind(&self) -> (kind: ColumnKind)
        ensures
            kind == self.spec_kind(),
    {
        match self {
            Column::Text(_) => ColumnKind::Text,
            Column::Number(_) => ColumnKind::Number,
        }
    }

    /// Whether the cell in row `r` is missing.
    fn is_missing(&self, r: usize) -> (missing: bool)
        requires
            r < self.spec_len(),
        ensures
            missing == (self.value(r as int) is Missing),
    {
        match self {
            Column::Text(cells) => cells[r].is_none(),
            Column::Number(cells) => cells[r].is_none(),
        }
    }
}

/// The table that `height` rows of the given columns make under the given
/// names.
pub open spec fn table_of<T>(names: Seq<String>, columns: Seq<Column<T>>, height: nat) -> TableView<
    T,
> {
    TableView {
        fields: Seq::new(
            columns.len(),
            |c: int| FieldView { name: names[c]@, kind: columns[c].spec_kind() },
        ),
        rows: Seq::new(height, |r: int| Seq::new(columns.len(), |c: int| columns[c].value(r))),
    }
}

/// A table. Its columns all have `height` cells, and there is one name for
/// each.
#[derive(Debug)]
pub struct Table<T> {
    names: Vec<String>,
    columns: Vec<Column<T>>,
    height: usize,
}

impl<T> View for Table<T> {
    type V = TableView<T>;

    closed spec fn view(&self) -> TableView<T> {
        table_of(self.names@, self.columns@, self.height as nat)
    }
}

impl<T> Table<T> {
    #[verifier::type_invariant]
    spec fn inv(self) -> bool {
        &&& self.names@.len() == self.columns@.len()
        &&& forall|c: int|
            0 <= c < self.columns@.len() ==> (#[trigger] self.columns@[c]).spec_len()
                == self.height
    }

    /// Builds a table from its columns and their names. There must be as
    /// many names as columns, and the columns must all have the same
    /// number of cells, which is the table's height; a table without
    /// columns has no rows.
    pub fn new(names: Vec<String>, columns: Vec<Column<T>>) -> (res: Result<Self, DataError>)
        ensures
            res is Ok <==> {
                &&& names@.len() == columns@.len()
                &&& forall|c: int|
                    0 <= c < columns@.len() ==> (#[trigger] columns@[c]).spec_len()
                        == columns@[0].spec_len()
            },
            res matches Ok(table) ==> table@ == table_of(
                names@,
                columns@,
                if columns@.len() == 0 {
                    0
                } else {
                    columns@[0].spec_len()
                },
            ),
            res matches Err(e) ==> e == DataError::ShapeMismatch,
    {
        if names.len() != columns.len() {
            return Err(DataError::ShapeMismatch);
        }
        let height: usize = if columns.len() == 0 {
            0
        } else {
            columns[0].len()
        };
        let mut c: usize = 0;
        while c < columns.len()
            invariant
                c <= columns@.len(),
                columns@.len() > 0 ==> height == columns@[0].spec_len(),
                forall|j: int| 0 <= j < c ==> (#[trigger] columns@[j]).spec_len() == height,
            decreases columns@.len() - c,
        {
            if columns[c].len() != height {
                return Err(DataError::ShapeMismatch);
            }
            c = c + 1;
        }
        Ok(Table { names, columns, height })
    }

    /// The view of a table is always well formed.
    pub proof fn lemma_view_wf(self)
        ensures
            self@.wf(),
    {
        let view = self@;
        assert forall|r: int| 0 <= r < view.rows.len() implies {
            &&& (#[trigger] view.rows[r]).len() == view.fields.len()
            &&& forall|c: int|
                0 <= c < view.fields.len() ==> (#[trigger] view.rows[r][c]).fits(
                    view.fields[c].kind,
                )
        } by {
            assert forall|c: int| 0 <= c < view.fields.len() implies (
            #[trigger] view.rows[r][c]).fits(view.fields[c].kind) by {
                assert(view.rows[r][c] == self.columns@[c].value(r));
            }
        }
    }

    /// The number of rows.
    pub fn height(&self) -> (n: usize)
        ensures
            n == self@.height(),
    {
        self.height
    }

    /// The number of columns.
    pub fn width(&self) -> (n: usize)
        ensures
            n == self@.width(),
    {
        self.columns.len()
    }

    /// Whether the table has the columns that the schema lists: as many,
    /// in the same order, each under its name and of its kind.
    pub fn conforms_to(&self, schema: &Vec<Field>) -> (res: bool)
        ensures
            res == (self@.fields == field_views(schema@)),
    {
        proof {
            use_type_invariant(self);
        }
        if self.columns.len() != schema.len() {
            assert(self@.fields.len() != field_views(schema@).len());
            return false;
        }
        let mut c: usize = 0;
        while c < schema.len()
            invariant
                c <= schema@.len(),
                self.columns@.len() == schema@.len(),
                self.names@.len() == self.columns@.len(),
                forall|j: int| 0 <= j < c ==> (#[trigger] self@.fields[j]) == schema@[j]@,
            decreases schema@.len() - c,
        {
            let same_kind: bool = match (self.columns[c].kind(), schema[c].kind) {
                (ColumnKind::Text, ColumnKind::Text) => true,
                (ColumnKind::Number, ColumnKind::Number) => true,
                _ => false,
            };
            if !same_kind || self.names[c] != schema[c].name {
                assert(self@.fields[c as int] != field_views(schema@)[c as int]);
                return false;
            }
            c = c + 1;
        }
        assert(self@.fields =~= field_views(schema@));
        true
    }

    /// Column `c`, or `None` where the table has no such column.
    pub fn column(&self, c: usize) -> (res: Option<&Column<T>>)
        ensures
            res is Some <==> c < self@.width(),
            res matches Some(column) ==> {
                &&& column.spec_kind() == self@.fields[c as int].kind
                &&& column.spec_len() == self@.height()
                &&& forall|r: int|
                    0 <= r < self@.height() ==> column.value(r) == #[trigger] self@.rows[r][c as int]
            },
    {
        proof {
            use_type_invariant(self);
        }
        if c < self.columns.len() {
            Some(&self.columns[c])
        } else {
            None
        }
    }

    /// Column `c` of a table that has one.
    pub(crate) fn column_at(&self, c: usize) -> (column: &Column<T>)
        requires
            c < self@.width(),
        ensures
            column.spec_kind() == self@.fields[c as int].kind,
            column.spec_len() == self@.height(),
            forall|r: int|
                0 <= r < self@.height() ==> column.value(r) == #[trigger] self@.rows[r][c as int],
    {
        proof {
            use_type_invariant(self);
        }
        &self.columns[c]
    }

    /// The position of the first column called `name`, or `None` where no
    /// column is.
    pub fn column_index(&self, name: &String) -> (res: Option<usize>)
        ensures
            res is Some <==> self@.has_column(name@),
            res matches Some(i) ==> self@.is_first(name@, i as int),
    {
        proof {
            use_type_invariant(self);
        }
        let mut i: usize = 0;
        while i < self.names.len()
            invariant
                i <= self.names@.len(),
                self.names@.len() == self.columns@.len(),
                forall|j: int| 0 <= j < i ==> (#[trigger] self@.fields[j]).name != name@,
            decreases self.names@.len() - i,
        {
            if self.names[i] == *name {
                assert(self@.fields[i as int].name == name@);
                assert(self@.is_first(name@, i as int));
                return Some(i);
            }
            i = i + 1;
        }
        assert forall|k: int| !self@.is_first(name@, k) by {
            if 0 <= k < self@.fields.len() {
                assert(self@.fields[k].name != name@);
            }
        }
        None
    }
}

/// The characters of each name.
pub open spec fn name_views(names: Seq<String>) -> Seq<Seq<char>> {
    Seq::new(names.len(), |k: int| names[k]@)
}

/// The rows among the first `n` that `keep` marks, in their order.
spec fn kept(keep: Seq<bool>, n: nat) -> Seq<int>
    decreases n,
{
    if n == 0 {
        Seq::empty()
    } else if keep[n - 1] {
        kept(keep, (n - 1) as nat).push(n - 1)
    } else {
        kept(keep, (n - 1) as nat)
    }
}

/// The marked rows are rows among the first `n`, at most `n` of them, and
/// each is marked.
proof fn lemma_kept_bounds(keep: Seq<bool>, n: nat)
    ensures
        kept(keep, n).len() <= n,
        forall|j: int|
            0 <= j < kept(keep, n).len() ==> 0 <= (#[trigger] kept(keep, n)[j]) < n && keep[kept(
                keep,
                n,
            )[j]],
    decreases n,
{
    if n > 0 {
        lemma_kept_bounds(keep, (n - 1) as nat);
    }
}

/// Where `keep` marks the rows that `pred` accepts, filtering the first `n`
/// rows by `pred` gives the marked rows.
proof fn lemma_filter_kept<A>(rows: Seq<A>, keep: Seq<bool>, n: nat, pred: spec_fn(A) -> bool)
    requires
        n <= rows.len(),
        n <= keep.len(),
        forall|r: int| 0 <= r < n ==> keep[r] == pred(#[trigger] rows[r]),
    ensures
        rows.take(n as int).filter(pred).len() == kept(keep, n).len(),
        forall|j: int|
            0 <= j < kept(keep, n).len() ==> (#[trigger] rows.take(n as int).filter(pred)[j])
                == rows[kept(keep, n)[j]],
    decreases n,
{
    reveal(Seq::filter);
    if n > 0 {
        lemma_filter_kept(rows, keep, (n - 1) as nat, pred);
        assert(rows.take(n as int).drop_last() =~= rows.take(n - 1));
        assert(rows.take(n as int).last() == rows[n - 1]);
    }
}

impl<T: Copy> Column<T> {
    /// A column with the same cells.
    pub fn duplicate(&self) -> (res: Self)
        ensures
            res.spec_kind() == self.spec_kind(),
            res.spec_len() == self.spec_len(),
            forall|r: int| 0 <= r < self.spec_len() ==> res.value(r) == self.value(r),
    {
        match self {
            Column::Text(cells) => {
                let mut out: Vec<Option<String>> = Vec::new();
                let mut r: usize = 0;
                while r < cells.len()
                    invariant
                        r <= cells@.len(),
                        out@.len() == r,
                        forall|j: int| 0 <= j < r ==> out@[j] == cells@[j],
                    decreases cells@.len() - r,
                {
                    let cell: Option<String> = match &cells[r] {
                        Some(text) => Some(text.clone()),
                        None => None,
                    };
                    out.push(cell);
                    r = r + 1;
                }
                Column::Text(out)
            },
            Column::Number(cells) => {
                let mut out: Vec<Option<T>> = Vec::new();
                let mut r: usize = 0;
                while r < cells.len()
                    invariant
                        r <= cells@.len(),
                        out@.len() == r,
                        forall|j: int| 0 <= j < r ==> out@[j] == cells@[j],
                    decreases cells@.len() - r,
                {
                    out.push(cells[r]);
                    r = r + 1;
                }
                Column::Number(out)
            },
        }
    }

    /// The cells of the rows that `keep` marks, in their order.
    fn pick(&self, keep: &Vec<bool>) -> (res: Self)
        requires
            keep@.len() == self.spec_len(),
        ensures
            res.spec_kind() == self.spec_kind(),
            res.spec_len() == kept(keep@, self.spec_len()).len(),
            forall|j: int|
                0 <= j < res.spec_len() ==> res.value(j) == self.value(
                    kept(keep@, self.spec_len())[j],
                ),
    {
        match self {
            Column::Text(cells) => {
                let mut out: Vec<Option<String>> = Vec::new();
                let mut r: usize = 0;
                while r < cells.len()
                    invariant
                        r <= cells@.len(),
                        keep@.len() == cells@.len(),
                        out@.len() == kept(keep@, r as nat).len(),
                        forall|j: int|
                            0 <= j < out@.len() ==> out@[j] == cells@[kept(keep@, r as nat)[j]],
                    decreases cells@.len() - r,
                {
                    if keep[r] {
                        let cell: Option<String> = match &cells[r] {
                            Some(text) => Some(text.clone()),
                            None => None,
                        };
                        out.push(cell);
                    }
                    r = r + 1;
                }
                Column::Text(out)
            },
            Column::Number(cells) => {
                let mut out: Vec<Option<T>> = Vec::new();
                let mut r: usize = 0;
                while r < cells.len()
                    invariant
                        r <= cells@.len(),
                        keep@.len() == cells@.len(),
                        out@.len() == kept(keep@, r as nat).len(),
                        forall|j: int|
                            0 <= j < out@.len() ==> out@[j] == cells@[kept(keep@, r as nat)[j]],
                    decreases cells@.len() - r,
                {
                    if keep[r] {
                        out.push(cells[r]);
                    }
                    r = r + 1;
                }
                Column::Number(out)
            },
        }
    }
}

impl<T: Copy> Table<T> {
    /// The table made of the columns called by `names`, in that order, with
    /// every row kept. A name stands for the first column that carries it.
    /// Where a name is carried by no column, nothing is built.
    pub fn select(&self, names: &Vec<String>) -> (res: Result<Self, DataError>)
        ensures
            match res {
                Ok(table) => self@.select(name_views(names@)) == Ok::<TableView<T>, DataError>(
                    table@,
                ),
                Err(e) => self@.select(name_views(names@)) == Err::<TableView<T>, DataError>(e),
            },
    {
        proof {
            use_type_invariant(self);
        }
        let ghost wanted = name_views(names@);
        let mut out_names: Vec<String> = Vec::new();
        let mut out_columns: Vec<Column<T>> = Vec::new();
        let mut k: usize = 0;
        while k < names.len()
            invariant
                k <= names@.len(),
                wanted == name_views(names@),
                out_names@.len() == k,
                out_columns@.len() == k,
                self.names@.len() == self.columns@.len(),
                forall|c: int|
                    0 <= c < self.columns@.len() ==> (#[trigger] self.columns@[c]).spec_len()
                        == self.height,
                forall|j: int| 0 <= j < k ==> self@.has_column(#[trigger] wanted[j]),
                forall|j: int| 0 <= j < k ==> (#[trigger] out_names@[j])@ == wanted[j],
                forall|j: int|
                    0 <= j < k ==> {
                        let source = self.columns@[self@.column_of(wanted[j])];
                        &&& (#[trigger] out_columns@[j]).spec_kind() == source.spec_kind()
                        &&& out_columns@[j].spec_len() == self.height
                        &&& forall|r: int|
                            0 <= r < self.height ==> out_columns@[j].value(r) == source.value(r)
                    },
            decreases names@.len() - k,
        {
            match self.column_index(&names[k]) {
                None => {
                    assert(!self@.has_column(wanted[k as int]));
                    return Err(DataError::ColumnNotFound);
                },
                Some(i) => {
                    assert(self@.is_first(wanted[k as int], i as int));
                    assert(self@.column_of(wanted[k as int]) == i);
                    out_names.push(names[k].clone());
                    out_columns.push(self.columns[i].duplicate());
                },
            }
            k = k + 1;
        }
        let table = Table { names: out_names, columns: out_columns, height: self.height };
        proof {
            let want = self@.select(wanted)->Ok_0;
            assert(table@.fields =~= want.fields);
            assert forall|r: int| 0 <= r < self.height implies (#[trigger] table@.rows[r])
                =~= want.rows[r] by {
                assert forall|j: int| 0 <= j < names@.len() implies table@.rows[r][j]
                    == want.rows[r][j] by {
                    assert(table@.rows[r][j] == out_columns@[j].value(r));
                }
            }
            assert(table@.rows =~= want.rows);
        }
        Ok(table)
    }

    /// Whether no cell of row `r` is missing.
    fn row_is_complete(&self, r: usize) -> (complete: bool)
        requires
            r < self@.height(),
        ensures
            complete == row_complete(self@.rows[r as int]),
    {
        proof {
            use_type_invariant(self);
        }
        let mut c: usize = 0;
        while c < self.columns.len()
            invariant
                c <= self.columns@.len(),
                r < self.height,
                forall|j: int|
                    0 <= j < self.columns@.len() ==> (#[trigger] self.columns@[j]).spec_len()
                        == self.height,
                forall|j: int| 0 <= j < c ==> !((#[trigger] self@.rows[r as int][j]) is Missing),
            decreases self.columns@.len() - c,
        {
            if self.columns[c].is_missing(r) {
                assert(self@.rows[r as int][c as int] is Missing);
                return false;
            }
            assert(!(self@.rows[r as int][c as int] is Missing));
            c = c + 1;
        }
        true
    }

    /// The table of the rows in which no cell is missing, in their order,
    /// under the same columns. A row with a missing cell is left out whole.
    pub fn drop_nulls(&self) -> (res: Self)
        ensures
            res@ == self@.drop_nulls(),
            res@.fields == self@.fields,
            res@.height() <= self@.height(),
            forall|r: int| 0 <= r < res@.height() ==> row_complete(#[trigger] res@.rows[r]),
    {
        proof {
            use_type_invariant(self);
        }
        let ghost pred = |row: Seq<Value<T>>| row_complete(row);
        let mut keep: Vec<bool> = Vec::new();
        let mut count: usize = 0;
        let mut r: usize = 0;
        while r < self.height
            invariant
                r <= self.height,
                keep@.len() == r,
                count == kept(keep@, r as nat).len(),
                count <= r,
                forall|j: int| 0 <= j < r ==> keep@[j] == row_complete(#[trigger] self@.rows[j]),
            decreases self.height - r,
        {
            let complete = self.row_is_complete(r);
            let ghost before = keep@;
            keep.push(complete);
            proof {
                lemma_kept_prefix(before, keep@, r as nat);
            }
            if complete {
                count = count + 1;
            }
            r = r + 1;
        }
        let mut out_names: Vec<String> = Vec::new();
        let mut out_columns: Vec<Column<T>> = Vec::new();
        let mut c: usize = 0;
        while c < self.columns.len()
            invariant
                c <= self.columns@.len(),
                self.names@.len() == self.columns@.len(),
                keep@.len() == self.height,
                count == kept(keep@, self.height as nat).len(),
                out_names@.len() == c,
                out_columns@.len() == c,
                forall|j: int|
                    0 <= j < self.columns@.len() ==> (#[trigger] self.columns@[j]).spec_len()
                        == self.height,
                forall|j: int| 0 <= j < c ==> (#[trigger] out_names@[j])@ == self.names@[j]@,
                forall|j: int|
                    0 <= j < c ==> {
                        &&& (#[trigger] out_columns@[j]).spec_kind() == self.columns@[j].spec_kind()
                        &&& out_columns@[j].spec_len() == count
                        &&& forall|i: int|
                            0 <= i < count ==> out_columns@[j].value(i) == self.columns@[j].value(
                                kept(keep@, self.height as nat)[i],
                            )
                    },
            decreases self.columns@.len() - c,
        {
            out_names.push(self.names[c].clone());
            out_columns.push(self.columns[c].pick(&keep));
            c = c + 1;
        }
        let table = Table { names: out_names, columns: out_columns, height: count };
        proof {
            let want = self@.drop_nulls();
            let chosen = kept(keep@, self.height as nat);
            lemma_kept_bounds(keep@, self.height as nat);
            lemma_filter_kept(self@.rows, keep@, self.height as nat, pred);
            assert(self@.rows.take(self.height as int) =~= self@.rows);
            assert(table@.fields =~= want.fields);
            assert(table@.rows.len() == want.rows.len());
            assert forall|i: int| 0 <= i < count implies (#[trigger] table@.rows[i])
                =~= want.rows[i] by {
                assert(want.rows[i] == self@.rows[chosen[i]]);
                assert forall|j: int| 0 <= j < self.columns@.len() implies table@.rows[i][j]
                    == want.rows[i][j] by {
                    assert(table@.rows[i][j] == out_columns@[j].value(i));
                }
            }
            assert(table@.rows =~= want.rows);
            assert forall|i: int| 0 <= i < table@.height() implies row_complete(
                #[trigger] table@.rows[i],
            ) by {
                assert(table@.rows[i] == self@.rows[chosen[i]]);
                assert(keep@[chosen[i]]);
            }
        }
        table
    }
}

/// Marks beyond the first `n` rows do not change which of these are kept.
proof fn lemma_kept_prefix(a: Seq<bool>, b: Seq<bool>, n: nat)
    requires
        n <= a.len(),
        n <= b.len(),
        forall|r: int| 0 <= r < n ==> a[r] == b[r],
    ensures
        kept(a, n) == kept(b, n),
    decreases n,
{
    if n > 0 {
        lemma_kept_prefix(a, b, (n - 1) as nat);
    }
}

} // verus!
