//! The ways in which a stage of the preparation can fail.

use vstd::prelude::*;

verus! {

/// A failure of one stage. Each variant belongs to one stage, so the
/// variant alone tells where the run stopped.
#[derive(Clone, Copy, Debug, PartialEq, Eq, Structural)]
pub enum DataError {
    /// A projection names a column that the table does not have.
    ColumnNotFound,
    /// A column that has to hold numbers holds text.
    NotNumeric,
    /// A column that has to hold text holds numbers.
    NotText,
    /// A cell that has to hold a value is missing.
    MissingValue,
    /// A label is missing or is none of the known class names.
    UnrecognizedLabel,
    /// Row and column counts do not fit the data handed over.
    ShapeMismatch,
}

impl DataError {
    /// A line for the user that names the stage that failed.
    pub fn message(&self) -> (text: &'static str)
        ensures
            text@ == match *self {
                DataError::ColumnNotFound => "projection: a named column is absent from the table"@,
                DataError::NotNumeric => "matrix conversion: a feature column holds text"@,
                DataError::NotText => "label encoding: the label column does not hold text"@,
                DataError::MissingValue => "matrix conversion: a feature value is missing"@,
                DataError::UnrecognizedLabel => "label encoding: a label is missing or unknown"@,
                DataError::ShapeMismatch => "shape: row and column counts do not fit the data"@,
            },
    {
        match self {
            DataError::ColumnNotFound => "projection: a named column is absent from the table",
            DataError::NotNumeric => "matrix conversion: a feature column holds text",
            DataError::NotText => "label encoding: the label column does not hold text",
            DataError::MissingValue => "matrix conversion: a feature value is missing",
            DataError::UnrecognizedLabel => "label encoding: a label is missing or unknown",
            DataError::ShapeMismatch => "shape: row and column counts do not fit the data",
        }
    }
}

} // verus!
