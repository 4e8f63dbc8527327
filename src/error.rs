//! Errors of the library.
use vstd::prelude::*;

verus! {

/// Why a session cannot go on.
#[derive(Debug)]
pub enum MojoError {
    /// The pipeline model is not valid, for instance for want of a license.
    InvalidModel,
    /// The engine could not create a pipeline.
    InvalidPipeline,
    /// A model input column is absent from the CSV header.
    MissingInputColumn(usize),
    /// No input column has this index.
    InvalidInputIndex(usize),
    /// No output column has this index.
    InvalidOutputIndex(usize),
    /// The input column with this index has a type that no column supports.
    UnsupportedInputType(usize),
    /// The output column with this index has a type that no column supports.
    UnsupportedOutputType(usize),
    /// The library (first) reports an API version (second) that is not supported.
    UnsupportedApi(String, String),
    /// A record could not be written as CSV.
    CsvError,
}

} // verus!
