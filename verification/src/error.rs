//! Errors of the processor. Business refusals are not errors: they are
//! `OpOutcome::Rejected`.
use vstd::prelude::*;
use crate::types::UnknownTypeOp;

verus! {

#[derive(Debug)]
pub enum TxProError {
    /// Wrong number of command-line arguments.
    BadArgs { got: usize },
    /// The input file could not be opened.
    Io { path: String, message: String },
    /// The CSV reader could not read the input.
    Csv { message: String },
    /// A required column is missing from the header.
    MissingColumn(String),
    /// A column exists but its value could not be read as the type it holds.
    BadField { line: u64, column: &'static str, value: String, expected: &'static str },
    /// The `type` column holds a value that is no known operation.
    BadTypeOp { value: String, source: UnknownTypeOp },
    /// An operation could not be carried out.
    BadOp { value: String },
}

} // verus!
