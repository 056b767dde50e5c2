//! The parser's error type.
//!
//! Every failure is a returned value, never a panic: a tree node that does
//! not match the grammar at its position, a mandatory clause that is absent,
//! or an opaque failure passed through from the external tree reader.

use vstd::prelude::*;

use crate::values::{Keyword, SpecValue, Value};

verus! {

/// The mathematical model of a parse error.
pub enum SpecParseError {
    /// The offending tree node.
    Invalid(SpecValue),
    /// The name of the absent clause keyword.
    Missing(Seq<char>),
    /// The reader's message, passed through.
    Read(Seq<char>),
}

/// Why a query tree failed to parse.
#[derive(Debug, PartialEq, Eq)]
pub enum FindParseError {
    /// A tree node did not match the grammar expected at its position.
    InvalidInput(Value),
    /// A mandatory clause (`:find` or `:where`) is absent.
    MissingField(Keyword),
    /// An opaque failure from the external tree reader, representable here
    /// for uniform propagation; this parser never produces it.
    EdnParseError(String),
}

impl View for FindParseError {
    type V = SpecParseError;

    open spec fn view(&self) -> SpecParseError {
        match self {
            FindParseError::InvalidInput(v) => SpecParseError::Invalid(v@),
            FindParseError::MissingField(k) => SpecParseError::Missing(k@),
            FindParseError::EdnParseError(msg) => SpecParseError::Read(msg@),
        }
    }
}

} // verus!
