//! The failures that the library reports.

use vstd::prelude::*;
use vstd::string::StringExecFns;

verus! {

/// Why a step of table generation failed.
#[derive(Clone, Copy, Debug, PartialEq, Eq, Structural)]
pub enum DataError {
    /// The schema describes no column.
    Schema,
    /// A range modifier is not of the form `(lower-upper)`.
    RangeParse,
    /// A delete target matches none of its forms.
    DeleteTargetParse,
    /// The tables to append differ in their column names.
    AppendSchemaMismatch,
}

impl DataError {
    /// A short description of the failure.
    pub fn message(&self) -> String {
        match self {
            DataError::Schema => String::from_str("the schema describes no column"),
            DataError::RangeParse => String::from_str("the range is not of the form (lower-upper)"),
            DataError::DeleteTargetParse => String::from_str("the delete target cannot be read"),
            DataError::AppendSchemaMismatch => String::from_str("the column names of the tables differ"),
        }
    }
}

} // verus!
