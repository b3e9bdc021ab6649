//! The ways in which loading a dataset fails.

use vstd::prelude::*;

verus! {

/// Why a table could not be turned into a dataset. Every failure is final:
/// no partial dataset is ever handed out.
#[derive(Clone, Copy, Debug, PartialEq, Eq, Structural)]
pub enum LoadError {
    /// The header line could not be read as text.
    Header,
    /// Data row `row` (counted from zero, the header left out) was rejected
    /// by the reader, or does not have as many fields as the header.
    Malformed { row: usize },
    /// The field at `column` of data row `row` is not a number.
    NotNumeric { row: usize, column: usize },
    /// The header has fewer than two columns, so no feature would remain
    /// beside the target.
    NoFeatures,
    /// The table does not have the shape that is expected of it, or its
    /// features cannot be laid out as a matrix of the shape asked for.
    Shape,
}

} // verus!
