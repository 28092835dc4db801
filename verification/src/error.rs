//! The errors a translation can raise: cardinality faults of the header,
//! and malformed numeric qualifier values.

use vstd::prelude::*;

verus! {

/// Why a translation failed.
#[derive(Debug, Clone, PartialEq, Eq)]
pub enum Error {
    /// A required header clause is missing.
    MissingClause { name: String },
    /// A header clause that may appear at most once appears again.
    DuplicateClauses { name: String },
    /// A value that cannot be composed into a valid IRI.
    Syntax { value: String },
    /// A cardinality-family qualifier holds a value that is not a valid
    /// integer.
    InvalidQualifierValue { key: String, value: String },
}

pub enum ErrorView {
    MissingClause { name: Seq<char> },
    DuplicateClauses { name: Seq<char> },
    Syntax { value: Seq<char> },
    InvalidQualifierValue { key: Seq<char>, value: Seq<char> },
}

impl View for Error {
    type V = ErrorView;

    open spec fn view(&self) -> ErrorView {
        match self {
            Error::MissingClause { name } => ErrorView::MissingClause { name: name@ },
            Error::DuplicateClauses { name } => ErrorView::DuplicateClauses { name: name@ },
            Error::Syntax { value } => ErrorView::Syntax { value: value@ },
            Error::InvalidQualifierValue { key, value } => ErrorView::InvalidQualifierValue {
                key: key@,
                value: value@,
            },
        }
    }
}

} // verus!
