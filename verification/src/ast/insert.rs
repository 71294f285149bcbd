//! The INSERT statement node.

use vstd::prelude::*;
use super::common::TableReference;
use super::expr::Expr;
use super::select::SelectStatement;

verus! {

/// A parsed INSERT statement. Exactly one of the four data sources —
/// DEFAULT VALUES, a VALUES list, a SET list, or a SELECT subquery — is
/// populated; the parser rejects every other combination.
#[derive(Debug, Clone, PartialEq)]
pub struct InsertStatement {
    pub table: TableReference,
    pub columns: Option<Vec<String>>,
    /// The VALUES rows; several parenthesized rows may be given.
    pub values: Option<Vec<Vec<Expr>>>,
    /// A SELECT subquery as the data source.
    pub select_clause: Option<SelectStatement>,
    /// SET-style column assignments as the data source.
    pub set_clause: Option<Vec<(String, Expr)>>,
    pub on_duplicate: Option<OnDuplicateClause>,
    /// True when the data source is DEFAULT VALUES.
    pub is_default_values: bool,
    /// Whether execution reports the affected row count; always set.
    pub is_return_count: bool,
}

/// The ON DUPLICATE KEY UPDATE clause: an ordered list of column
/// assignments.
#[derive(Debug, Clone, PartialEq)]
pub struct OnDuplicateClause {
    pub updates: Vec<(String, Expr)>,
}

/// The number of data sources an INSERT statement carries.
pub open spec fn insert_source_count(s: InsertStatement) -> int {
    (if s.is_default_values {
        1int
    } else {
        0int
    }) + (if s.values is Some {
        1int
    } else {
        0int
    }) + (if s.set_clause is Some {
        1int
    } else {
        0int
    }) + (if s.select_clause is Some {
        1int
    } else {
        0int
    })
}

/// A well-formed INSERT statement: exactly one data source, and a column
/// list never combined with DEFAULT VALUES.
pub open spec fn insert_wf(s: InsertStatement) -> bool {
    &&& insert_source_count(s) == 1
    &&& !(s.columns is Some && s.is_default_values)
}

} // verus!
