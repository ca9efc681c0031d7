//! The failures that the library reports.

use vstd::prelude::*;

verus! {

/// Why a page size or a placement could not be produced.
#[derive(Debug, PartialEq, Eq)]
pub enum Error {
    /// The token is neither a standard format nor a custom dimension; holds
    /// the token as it was given.
    InvalidPageSize(String),
    /// A custom dimension names a unit other than `mm`, `cm` and `in`; holds
    /// that unit.
    InvalidUnit(String),
    /// A length is zero or too large to be held.
    InvalidDimensions,
}

/// What an [`Error`] says, with its texts as sequences of characters.
pub enum ErrorView {
    InvalidPageSize(Seq<char>),
    InvalidUnit(Seq<char>),
    InvalidDimensions,
}

impl View for Error {
    type V = ErrorView;

    open spec fn view(&self) -> ErrorView {
        match self {
            Error::InvalidPageSize(token) => ErrorView::InvalidPageSize(token@),
            Error::InvalidUnit(unit) => ErrorView::InvalidUnit(unit@),
            Error::InvalidDimensions => ErrorView::InvalidDimensions,
        }
    }
}

} // verus!
