//! The SELECT statement node.

use vstd::prelude::*;
use super::common::TableReference;
use super::expr::{Expr, LimitClause, OrderByExpr};

verus! {

/// A parsed SELECT statement.
#[derive(Debug, Clone, PartialEq)]
pub struct SelectStatement {
    pub columns: Vec<SelectColumn>,
    /// True for DISTINCT, false for ALL or neither.
    pub distinct: bool,
    pub from: TableReference,
    pub where_clause: Option<Expr>,
    pub group_by: Option<Vec<Expr>>,
    pub having: Option<Expr>,
    pub order_by: Option<Vec<OrderByExpr>>,
    pub limit: Option<LimitClause>,
}

/// One selected column.
#[derive(Debug, Clone, PartialEq)]
pub enum SelectColumn {
    /// All columns: `*`.
    Wildcard,
    /// A named column with an optional alias.
    Column { name: String, alias: Option<String> },
}

} // verus!
