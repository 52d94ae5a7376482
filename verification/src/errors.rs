//! Failures of the classifier core. Reading the data source itself is the
//! harness's business, so its failures (an unreadable file) are reported by
//! the harness; the core reports what it can detect on plain values.
use vstd::prelude::*;

verus! {

/// Why a run over a dataset was aborted.
///
/// `ParseError { row, field }` names the first feature field (row-major,
/// fields in schema order) that is not a valid real-number literal.
/// `DataError` reports a dataset that is empty or leaves the test split
/// empty, on which accuracy and mean-squared-error are undefined.
#[derive(Debug, Clone, Copy, PartialEq, Eq, Structural)]
pub enum CoreError {
    ParseError { row: usize, field: usize },
    DataError,
}

} // verus!
