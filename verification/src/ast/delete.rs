//! The DELETE statement node.

use vstd::prelude::*;
use super::common::TableReference;
use super::expr::{Expr, LimitClause, OrderByExpr};

verus! {

/// A parsed DELETE statement.
#[derive(Debug, Clone, PartialEq)]
pub struct DeleteStatement {
    pub table: TableReference,
    pub where_clause: Option<Expr>,
    pub order_by: Option<Vec<OrderByExpr>>,
    pub limit: Option<LimitClause>,
    /// Whether execution reports the affected row count; always set.
    pub is_return_count: bool,
}

} // verus!
