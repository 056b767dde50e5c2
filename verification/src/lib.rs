//! Parser for a Datalog-style query surface syntax.
//!
//! A query arrives as one tree of self-describing data (scalars, symbols,
//! keywords, vectors, lists, sets, maps) in one of two equivalent surface
//! forms: a flat marker-delimited vector, or an explicit map from clause
//! keywords to value vectors.  The parser normalizes either form to a
//! canonical clause map, classifies the `:find` clause into one of four
//! result shapes, extracts the `:in` and `:with` bindings, and assembles a
//! strongly-typed query specification.

pub mod error;
pub mod find;
pub mod parse;
pub mod query;
pub mod util;
pub mod values;
