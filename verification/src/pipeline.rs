//! The whole preparation: from the table as it was loaded to the matrix of
//! features and the vector of class codes.

use crate::convert::{convert_features_to_matrix, feature_matrix};
use crate::error::DataError;
use crate::labels::{label_codes, lemma_label_codes, str_to_num};
use crate::matrix::{FeatureMatrix, MatrixView};
use crate::schema::{feature_columns, feature_names, target_columns, target_names};
use crate::table::{row_complete, ColumnKind, Table, TableView, Value};
use vstd::prelude::*;

verus! {

/// What a prepared dataset is: the matrix of features, and for each of its
/// rows the code of the row's class.
pub struct DatasetView<T> {
    pub features: MatrixView<T>,
    pub labels: Seq<u32>,
}

/// The matrix of features and the class codes of its rows.
#[derive(Debug)]
pub struct Dataset<T> {
    pub features: FeatureMatrix<T>,
    pub labels: Vec<u32>,
}

impl<T> View for Dataset<T> {
    type V = DatasetView<T>;

    open spec fn view(&self) -> DatasetView<T> {
        DatasetView { features: self.features@, labels: self.labels@ }
    }
}

/// Whether an outcome for a table is the one that `want` describes.
pub open spec fn table_outcome<T>(
    res: Result<Table<T>, DataError>,
    want: Result<TableView<T>, DataError>,
) -> bool {
    match res {
        Ok(table) => want == Ok::<TableView<T>, DataError>(table@),
        Err(e) => want == Err::<TableView<T>, DataError>(e),
    }
}

/// The cells of column `c`, from the first row on.
pub open spec fn column_values<T>(table: TableView<T>, c: int) -> Seq<Value<T>> {
    Seq::new(table.height(), |r: int| table.rows[r][c])
}

/// The class codes of a table whose first column holds the labels.
pub open spec fn target_codes<T>(target: TableView<T>) -> Result<Seq<u32>, DataError> {
    if target.fields[0].kind != ColumnKind::Text {
        Err(DataError::NotText)
    } else {
        label_codes(column_values(target, 0))
    }
}

/// What the preparation makes of a table. Rows with a missing cell are
/// dropped. Of what is left, the four feature columns become the matrix
/// and the label column becomes the codes. The first stage that fails
/// decides the error: the projection of the features, their conversion, the
/// projection of the labels, their encoding.
pub open spec fn prepared<T>(raw: TableView<T>) -> Result<DatasetView<T>, DataError> {
    let filtered = raw.drop_nulls();
    match filtered.select(feature_names()) {
        Err(e) => Err(e),
        Ok(features) => match feature_matrix(features) {
            Err(e) => Err(e),
            Ok(matrix) => match filtered.select(target_names()) {
                Err(e) => Err(e),
                Ok(target) => match target_codes(target) {
                    Err(e) => Err(e),
                    Ok(labels) => Ok(DatasetView { features: matrix, labels }),
                },
            },
        },
    }
}

/// The two projections of a table: its four feature columns, in their
/// fixed order, and its label column. Each is made on its own, and each
/// fails on its own where the table lacks a column that it names.
pub fn get_feature_target<T: Copy>(table: &Table<T>) -> (res: (
    Result<Table<T>, DataError>,
    Result<Table<T>, DataError>,
))
    ensures
        table_outcome(res.0, table@.select(feature_names())),
        table_outcome(res.1, table@.select(target_names())),
{
    let features = table.select(&feature_columns());
    let target = table.select(&target_columns());
    (features, target)
}

/// Prepares a loaded table for the classifier: see [`prepared`].
pub fn prepare_dataset<T: Copy>(raw: &Table<T>) -> (res: Result<Dataset<T>, DataError>)
    ensures
        match res {
            Ok(dataset) => prepared(raw@) == Ok::<DatasetView<T>, DataError>(dataset@),
            Err(e) => prepared(raw@) == Err::<DatasetView<T>, DataError>(e),
        },
        res matches Ok(dataset) ==> {
            &&& dataset@.features.ncols == 4
            &&& dataset@.features.nrows() == raw@.drop_nulls().height()
            &&& dataset@.labels.len() == dataset@.features.nrows()
            &&& forall|r: int|
                0 <= r < dataset@.labels.len() ==> 1 <= #[trigger] dataset@.labels[r] <= 3
        },
{
    proof {
        raw.lemma_view_wf();
        if prepared(raw@) is Ok {
            lemma_prepared(raw@);
        }
    }
    let filtered = raw.drop_nulls();
    let (features, target) = get_feature_target(&filtered);
    let features = match features {
        Ok(features) => features,
        Err(e) => {
            return Err(e);
        },
    };
    let matrix = match convert_features_to_matrix(&features) {
        Ok(matrix) => matrix,
        Err(e) => {
            return Err(e);
        },
    };
    let target = match target {
        Ok(target) => target,
        Err(e) => {
            return Err(e);
        },
    };
    proof {
        assert(target@.width() == 1);
    }
    let labels = target.column_at(0);
    proof {
        assert(labels.values() =~= column_values(target@, 0));
    }
    match str_to_num(labels) {
        Ok(codes) => Ok(Dataset { features: matrix, labels: codes }),
        Err(e) => Err(e),
    }
}

/// What holds of every prepared dataset: the matrix has four columns and
/// one row for each row of the table that has no missing cell; there is
/// one class code for each row of the matrix, and each is 1, 2 or 3.
pub proof fn lemma_prepared<T>(raw: TableView<T>)
    requires
        raw.wf(),
        prepared(raw) is Ok,
    ensures
        prepared(raw)->Ok_0.features.wf(),
        prepared(raw)->Ok_0.features.ncols == 4,
        prepared(raw)->Ok_0.features.nrows() == raw.drop_nulls().height(),
        prepared(raw)->Ok_0.features.nrows() <= raw.height(),
        prepared(raw)->Ok_0.labels.len() == prepared(raw)->Ok_0.features.nrows(),
        forall|r: int|
            0 <= r < prepared(raw)->Ok_0.labels.len() ==> 1 <= (
            #[trigger] prepared(raw)->Ok_0.labels[r]) <= 3,
{
    let filtered = raw.drop_nulls();
    let target = filtered.select(target_names())->Ok_0;
    raw.rows.lemma_filter_len(|row: Seq<Value<T>>| row_complete(row));
    lemma_label_codes(column_values(target, 0));
}

} // verus!
