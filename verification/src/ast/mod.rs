//! The abstract syntax tree produced by the parser.
//!
//! Every node is created once during parsing and immutable afterwards; no
//! partially filled node ever escapes the parser.

use vstd::prelude::*;

pub mod common;
pub mod delete;
pub mod expr;
pub mod insert;
pub mod select;

pub use common::TableReference;
pub use delete::DeleteStatement;
pub use select::{SelectColumn, SelectStatement};

verus! {

/// A parsed statement. The enumeration is open: future statement kinds are
/// expected, so consumers must handle a default case.
#[non_exhaustive]
#[derive(Debug, Clone, PartialEq)]
pub enum SQLStatement {
    Select(SelectStatement),
    Delete(DeleteStatement),
}

} // verus!
