//! Preparation of a tabular dataset for a classifier.
//!
//! A table of named columns, of text or of numbers, is stripped of the rows
//! in which a cell is missing; its feature columns become a dense matrix,
//! row by row, and its label column becomes a vector of class codes.
//!
//! The type of a number is a parameter. The library moves numbers from
//! the table into the matrix and never computes with them, so every
//! statement about a cell is one of equality.

pub mod convert;
pub mod error;
pub mod labels;
pub mod matrix;
pub mod pipeline;
pub mod schema;
pub mod table;
