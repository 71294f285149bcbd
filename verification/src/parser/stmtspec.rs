//! The specification of the clause and statement grammars.
//!
//! Statement models mirror the statement nodes over character sequences
//! and expression models; each spec parser maps a position in the token
//! sequence to the parsed model and the position after it, or absence when
//! the grammar does not match there. As in the expression grammar, list
//! folds recurse only when the element parse advanced, which the verified
//! parsers show it always does.

use vstd::prelude::*;
use super::common::{
    ident_text_at, ident_tok_at, kw_tok_at, op_tok_at, punct_tok_at, spec_limit, spec_table_ref,
};
use super::exprspec::spec_expr;
use super::select::spec_select_column;
use crate::ast::expr::{expr_view, Expr, ExprModel, OrderByExpr};
use crate::ast::select::SelectColumn;
use crate::token::Token;

verus! {

// ---------------------------------------------------------------------------
// Views of the vectors statement nodes carry
// ---------------------------------------------------------------------------
/// The models of an expression vector's elements.
pub open spec fn exprs_vec_view(v: Vec<Expr>) -> Seq<ExprModel> {
    Seq::new(v@.len(), |i: int| expr_view(v@[i]))
}

/// The models of a vector of expression rows.
pub open spec fn rows_view(v: Vec<Vec<Expr>>) -> Seq<Seq<ExprModel>> {
    Seq::new(v@.len(), |i: int| exprs_vec_view(v@[i]))
}

/// The models of a vector of column assignments.
pub open spec fn assigns_view(v: Vec<(String, Expr)>) -> Seq<(Seq<char>, ExprModel)> {
    Seq::new(v@.len(), |i: int| (v@[i].0@, expr_view(v@[i].1)))
}

/// The models of a vector of names.
pub open spec fn strings_view(v: Vec<String>) -> Seq<Seq<char>> {
    Seq::new(v@.len(), |i: int| v@[i]@)
}

/// The models of a vector of ORDER BY entries.
pub open spec fn order_entries_view(v: Vec<OrderByExpr>) -> Seq<(ExprModel, bool)> {
    Seq::new(v@.len(), |i: int| (expr_view(v@[i].expr), v@[i].asc))
}

/// The model of a selected column.
pub enum SelectColumnModel {
    Wildcard,
    Column { name: Seq<char>, alias: Option<Seq<char>> },
}

/// The model of one selected column.
pub open spec fn select_col_view(c: SelectColumn) -> SelectColumnModel {
    match c {
        SelectColumn::Wildcard => SelectColumnModel::Wildcard,
        SelectColumn::Column { name, alias } => SelectColumnModel::Column {
            name: name@,
            alias: match alias {
                Some(a) => Some(a@),
                None => None,
            },
        },
    }
}

/// The models of a vector of selected columns.
pub open spec fn select_cols_view(v: Vec<SelectColumn>) -> Seq<SelectColumnModel> {
    Seq::new(v@.len(), |i: int| select_col_view(v@[i]))
}

// ---------------------------------------------------------------------------
// Shared list grammars
// ---------------------------------------------------------------------------
/// A comma-separated list of expressions, one or more.
pub open spec fn spec_expr_list(toks: Seq<Token>, p: int) -> Option<(Seq<ExprModel>, int)>
    decreases toks.len() - p,
    when 0 <= p
{
    match spec_expr(toks, p, 0) {
        Some(t) => if p < t.1 && t.1 <= toks.len() {
            spec_expr_list_tail(toks, t.1, seq![t.0])
        } else {
            // Unreachable: a successful parse advances within bounds.
            None
        },
        None => None,
    }
}

/// The fold of an expression list.
pub open spec fn spec_expr_list_tail(toks: Seq<Token>, p: int, acc: Seq<ExprModel>) -> Option<
    (Seq<ExprModel>, int),
>
    decreases toks.len() - p,
    when 0 <= p
{
    if punct_tok_at(toks, p, ',') {
        match spec_expr(toks, p + 1, 0) {
            Some(t) => if p < t.1 && t.1 <= toks.len() {
                spec_expr_list_tail(toks, t.1, acc.push(t.0))
            } else {
                // Unreachable: a successful parse advances within bounds.
                None
            },
            None => None,
        }
    } else {
        Some((acc, p))
    }
}

/// One ORDER BY entry: an expression, then an optional direction keyword;
/// the direction defaults to ascending.
pub open spec fn spec_order_entry(toks: Seq<Token>, p: int) -> Option<((ExprModel, bool), int)> {
    match spec_expr(toks, p, 0) {
        Some(t) => if kw_tok_at(toks, t.1, "DESC"@) {
            Some(((t.0, false), t.1 + 1))
        } else if kw_tok_at(toks, t.1, "ASC"@) {
            Some(((t.0, true), t.1 + 1))
        } else {
            Some(((t.0, true), t.1))
        },
        None => None,
    }
}

/// A comma-separated ORDER BY list, one or more entries.
pub open spec fn spec_order_by(toks: Seq<Token>, p: int) -> Option<(Seq<(ExprModel, bool)>, int)>
    decreases toks.len() - p,
    when 0 <= p
{
    match spec_order_entry(toks, p) {
        Some(t) => if p < t.1 && t.1 <= toks.len() {
            spec_order_by_tail(toks, t.1, seq![t.0])
        } else {
            // Unreachable: a successful parse advances within bounds.
            None
        },
        None => None,
    }
}

/// The fold of an ORDER BY list.
pub open spec fn spec_order_by_tail(
    toks: Seq<Token>,
    p: int,
    acc: Seq<(ExprModel, bool)>,
) -> Option<(Seq<(ExprModel, bool)>, int)>
    decreases toks.len() - p,
    when 0 <= p
{
    if punct_tok_at(toks, p, ',') {
        match spec_order_entry(toks, p + 1) {
            Some(t) => if p < t.1 && t.1 <= toks.len() {
                spec_order_by_tail(toks, t.1, acc.push(t.0))
            } else {
                // Unreachable: a successful parse advances within bounds.
                None
            },
            None => None,
        }
    } else {
        Some((acc, p))
    }
}

/// A comma-separated list of `column = expr` assignments, one or more.
pub open spec fn spec_assign_list(toks: Seq<Token>, p: int) -> Option<
    (Seq<(Seq<char>, ExprModel)>, int),
>
    decreases toks.len() - p,
    when 0 <= p
{
    match spec_assign(toks, p) {
        Some(t) => if p < t.1 && t.1 <= toks.len() {
            spec_assign_list_tail(toks, t.1, seq![t.0])
        } else {
            // Unreachable: a successful parse advances within bounds.
            None
        },
        None => None,
    }
}

/// One `column = expr` assignment.
pub open spec fn spec_assign(toks: Seq<Token>, p: int) -> Option<((Seq<char>, ExprModel), int)> {
    if ident_tok_at(toks, p) && op_tok_at(toks, p + 1, "="@) {
        match spec_expr(toks, p + 2, 0) {
            Some(t) => Some(((ident_text_at(toks, p), t.0), t.1)),
            None => None,
        }
    } else {
        None
    }
}

/// The fold of an assignment list.
pub open spec fn spec_assign_list_tail(
    toks: Seq<Token>,
    p: int,
    acc: Seq<(Seq<char>, ExprModel)>,
) -> Option<(Seq<(Seq<char>, ExprModel)>, int)>
    decreases toks.len() - p,
    when 0 <= p
{
    if punct_tok_at(toks, p, ',') {
        match spec_assign(toks, p + 1) {
            Some(t) => if p < t.1 && t.1 <= toks.len() {
                spec_assign_list_tail(toks, t.1, acc.push(t.0))
            } else {
                // Unreachable: a successful parse advances within bounds.
                None
            },
            None => None,
        }
    } else {
        Some((acc, p))
    }
}

/// A comma-separated list of identifiers, one or more.
pub open spec fn spec_ident_list(toks: Seq<Token>, p: int) -> Option<(Seq<Seq<char>>, int)>
    decreases toks.len() - p,
    when 0 <= p
{
    if ident_tok_at(toks, p) {
        spec_ident_list_tail(toks, p + 1, seq![ident_text_at(toks, p)])
    } else {
        None
    }
}

/// The fold of an identifier list.
pub open spec fn spec_ident_list_tail(toks: Seq<Token>, p: int, acc: Seq<Seq<char>>) -> Option<
    (Seq<Seq<char>>, int),
>
    decreases toks.len() - p,
    when 0 <= p
{
    if punct_tok_at(toks, p, ',') {
        if ident_tok_at(toks, p + 1) {
            spec_ident_list_tail(toks, p + 2, acc.push(ident_text_at(toks, p + 1)))
        } else {
            None
        }
    } else {
        Some((acc, p))
    }
}

/// One parenthesized VALUES row: `()` yields a zero-length row, otherwise
/// an expression list closed by `)`.
pub open spec fn spec_values_row(toks: Seq<Token>, p: int) -> Option<(Seq<ExprModel>, int)> {
    if punct_tok_at(toks, p, '(') {
        if punct_tok_at(toks, p + 1, ')') {
            Some((Seq::empty(), p + 2))
        } else {
            match spec_expr_list(toks, p + 1) {
                Some(t) => if punct_tok_at(toks, t.1, ')') {
                    Some((t.0, t.1 + 1))
                } else {
                    None
                },
                None => None,
            }
        }
    } else {
        None
    }
}

/// The comma-separated rows of a VALUES clause, one or more.
pub open spec fn spec_values_rows(toks: Seq<Token>, p: int) -> Option<(Seq<Seq<ExprModel>>, int)>
    decreases toks.len() - p,
    when 0 <= p
{
    match spec_values_row(toks, p) {
        Some(t) => if p < t.1 && t.1 <= toks.len() {
            spec_values_rows_tail(toks, t.1, seq![t.0])
        } else {
            // Unreachable: a successful parse advances within bounds.
            None
        },
        None => None,
    }
}

/// The fold of the VALUES rows.
pub open spec fn spec_values_rows_tail(
    toks: Seq<Token>,
    p: int,
    acc: Seq<Seq<ExprModel>>,
) -> Option<(Seq<Seq<ExprModel>>, int)>
    decreases toks.len() - p,
    when 0 <= p
{
    if punct_tok_at(toks, p, ',') {
        match spec_values_row(toks, p + 1) {
            Some(t) => if p < t.1 && t.1 <= toks.len() {
                spec_values_rows_tail(toks, t.1, acc.push(t.0))
            } else {
                // Unreachable: a successful parse advances within bounds.
                None
            },
            None => None,
        }
    } else {
        Some((acc, p))
    }
}

/// The optional parenthesized column list of INSERT: absent when no `(`
/// stands at the cursor; `()` yields an empty list.
pub open spec fn spec_insert_columns(toks: Seq<Token>, p: int) -> Option<
    (Option<Seq<Seq<char>>>, int),
> {
    if punct_tok_at(toks, p, '(') {
        if punct_tok_at(toks, p + 1, ')') {
            Some((Some(Seq::empty()), p + 2))
        } else {
            match spec_ident_list(toks, p + 1) {
                Some(t) => if punct_tok_at(toks, t.1, ')') {
                    Some((Some(t.0), t.1 + 1))
                } else {
                    None
                },
                None => None,
            }
        }
    } else {
        Some((None, p))
    }
}

/// The ON DUPLICATE KEY UPDATE clause: absent when no ON keyword stands at
/// the cursor; after ON, the full keyword sequence and an assignment list
/// are demanded.
pub open spec fn spec_on_duplicate(toks: Seq<Token>, p: int) -> Option<
    (Option<Seq<(Seq<char>, ExprModel)>>, int),
> {
    if kw_tok_at(toks, p, "ON"@) {
        if kw_tok_at(toks, p + 1, "DUPLICATE"@) && kw_tok_at(toks, p + 2, "KEY"@) && kw_tok_at(
            toks,
            p + 3,
            "UPDATE"@,
        ) {
            match spec_assign_list(toks, p + 4) {
                Some(t) => Some((Some(t.0), t.1)),
                None => None,
            }
        } else {
            None
        }
    } else {
        Some((None, p))
    }
}

// ---------------------------------------------------------------------------
// Statement models
// ---------------------------------------------------------------------------
/// The model of a SELECT statement.
pub struct SelectModel {
    pub columns: Seq<SelectColumnModel>,
    pub distinct: bool,
    pub from: (Seq<char>, Option<Seq<char>>),
    pub where_clause: Option<ExprModel>,
    pub group_by: Option<Seq<ExprModel>>,
    pub having: Option<ExprModel>,
    pub order_by: Option<Seq<(ExprModel, bool)>>,
    pub limit: Option<(u64, Option<u64>)>,
}

/// The model of a DELETE statement.
pub struct DeleteModel {
    pub table: (Seq<char>, Option<Seq<char>>),
    pub where_clause: Option<ExprModel>,
    pub order_by: Option<Seq<(ExprModel, bool)>>,
    pub limit: Option<(u64, Option<u64>)>,
    pub is_return_count: bool,
}

/// The model of an INSERT statement.
pub struct InsertModel {
    pub table: (Seq<char>, Option<Seq<char>>),
    pub columns: Option<Seq<Seq<char>>>,
    pub values: Option<Seq<Seq<ExprModel>>>,
    pub select_clause: Option<SelectModel>,
    pub set_clause: Option<Seq<(Seq<char>, ExprModel)>>,
    pub on_duplicate: Option<Seq<(Seq<char>, ExprModel)>>,
    pub is_default_values: bool,
    pub is_return_count: bool,
}

/// The model of a table reference.
pub open spec fn table_ref_view(t: crate::ast::common::TableReference) -> (
    Seq<char>,
    Option<Seq<char>>,
) {
    (
        t.name@,
        match t.alias {
            Some(a) => Some(a@),
            None => None,
        },
    )
}

/// The model of a SELECT statement node.
pub open spec fn select_stmt_view(s: crate::ast::select::SelectStatement) -> SelectModel {
    SelectModel {
        columns: select_cols_view(s.columns),
        distinct: s.distinct,
        from: table_ref_view(s.from),
        where_clause: match s.where_clause {
            Some(e) => Some(expr_view(e)),
            None => None,
        },
        group_by: match s.group_by {
            Some(v) => Some(exprs_vec_view(v)),
            None => None,
        },
        having: match s.having {
            Some(e) => Some(expr_view(e)),
            None => None,
        },
        order_by: match s.order_by {
            Some(v) => Some(order_entries_view(v)),
            None => None,
        },
        limit: match s.limit {
            Some(l) => Some((l.limit, l.offset)),
            None => None,
        },
    }
}

/// The model of a DELETE statement node.
pub open spec fn delete_stmt_view(s: crate::ast::delete::DeleteStatement) -> DeleteModel {
    DeleteModel {
        table: table_ref_view(s.table),
        where_clause: match s.where_clause {
            Some(e) => Some(expr_view(e)),
            None => None,
        },
        order_by: match s.order_by {
            Some(v) => Some(order_entries_view(v)),
            None => None,
        },
        limit: match s.limit {
            Some(l) => Some((l.limit, l.offset)),
            None => None,
        },
        is_return_count: s.is_return_count,
    }
}

/// The model of an INSERT statement node.
pub open spec fn insert_stmt_view(s: crate::ast::insert::InsertStatement) -> InsertModel {
    InsertModel {
        table: table_ref_view(s.table),
        columns: match s.columns {
            Some(v) => Some(strings_view(v)),
            None => None,
        },
        values: match s.values {
            Some(v) => Some(rows_view(v)),
            None => None,
        },
        select_clause: match s.select_clause {
            Some(sel) => Some(select_stmt_view(sel)),
            None => None,
        },
        set_clause: match s.set_clause {
            Some(v) => Some(assigns_view(v)),
            None => None,
        },
        on_duplicate: match s.on_duplicate {
            Some(c) => Some(assigns_view(c.updates)),
            None => None,
        },
        is_default_values: s.is_default_values,
        is_return_count: s.is_return_count,
    }
}

// ---------------------------------------------------------------------------
// Statement grammars
// ---------------------------------------------------------------------------
/// The SELECT column list: an optional DISTINCT or ALL, then `*` or one or
/// more columns separated by commas.
pub open spec fn spec_select_columns(toks: Seq<Token>, p: int) -> Option<
    (Seq<SelectColumnModel>, bool, int),
> {
    let distinct = kw_tok_at(toks, p, "DISTINCT"@);
    let p1 = if kw_tok_at(toks, p, "DISTINCT"@) || kw_tok_at(toks, p, "ALL"@) {
        p + 1
    } else {
        p
    };
    if op_tok_at(toks, p1, "*"@) {
        Some((seq![SelectColumnModel::Wildcard], distinct, p1 + 1))
    } else {
        match spec_cols_list(toks, p1) {
            Some(t) => Some((t.0, distinct, t.1)),
            None => None,
        }
    }
}

/// A comma-separated list of selected columns, one or more.
pub open spec fn spec_cols_list(toks: Seq<Token>, p: int) -> Option<(Seq<SelectColumnModel>, int)>
    decreases toks.len() - p,
    when 0 <= p
{
    match spec_select_column(toks, p) {
        Some(t) => spec_cols_list_tail(
            toks,
            t.2,
            seq![SelectColumnModel::Column { name: t.0, alias: t.1 }],
        ),
        None => None,
    }
}

/// The fold of the column list.
pub open spec fn spec_cols_list_tail(
    toks: Seq<Token>,
    p: int,
    acc: Seq<SelectColumnModel>,
) -> Option<(Seq<SelectColumnModel>, int)>
    decreases toks.len() - p, 1int,
    when 0 <= p
{
    if punct_tok_at(toks, p, ',') {
        match spec_select_column(toks, p + 1) {
            Some(t) => if p < t.2 && t.2 <= toks.len() {
                spec_cols_list_tail(
                    toks,
                    t.2,
                    acc.push(SelectColumnModel::Column { name: t.0, alias: t.1 }),
                )
            } else {
                // Unreachable: a successful parse advances within bounds.
                None
            },
            None => None,
        }
    } else {
        Some((acc, p))
    }
}

/// The ordinal of the SELECT clause keyword at index `p`, if one stands
/// there: a clause keyword remaining after the clause chain is out of
/// order or repeated.
pub open spec fn sel_trailing(toks: Seq<Token>, p: int) -> Option<u8> {
    if kw_tok_at(toks, p, "WHERE"@) {
        Some(1u8)
    } else if kw_tok_at(toks, p, "GROUP"@) {
        Some(2u8)
    } else if kw_tok_at(toks, p, "HAVING"@) {
        Some(3u8)
    } else if kw_tok_at(toks, p, "ORDER"@) {
        Some(4u8)
    } else if kw_tok_at(toks, p, "LIMIT"@) {
        Some(5u8)
    } else {
        None
    }
}

/// The ordinal of the DELETE clause keyword at index `p`, if one stands
/// there.
pub open spec fn del_trailing(toks: Seq<Token>, p: int) -> Option<u8> {
    if kw_tok_at(toks, p, "WHERE"@) {
        Some(1u8)
    } else if kw_tok_at(toks, p, "ORDER"@) {
        Some(2u8)
    } else if kw_tok_at(toks, p, "LIMIT"@) {
        Some(3u8)
    } else {
        None
    }
}

/// The SELECT grammar: the keyword, the column list, FROM and a table
/// reference, then the optional clauses in canonical order, each at most
/// once; a clause keyword left standing afterwards fails the parse.
pub open spec fn spec_select(toks: Seq<Token>, p: int) -> Option<(SelectModel, int)> {
    if !kw_tok_at(toks, p, "SELECT"@) {
        None
    } else {
        match spec_select_columns(toks, p + 1) {
            Some(cols) => if !kw_tok_at(toks, cols.2, "FROM"@) {
                None
            } else {
                match spec_table_ref(toks, cols.2 + 1, true) {
                    Some(tr) => spec_select_clauses(toks, tr.2, cols.0, cols.1, (tr.0, tr.1)),
                    None => None,
                }
            },
            None => None,
        }
    }
}

/// The optional WHERE clause: absent when no WHERE keyword stands at the
/// cursor.
#[verifier::opaque]
pub open spec fn spec_sel_where(toks: Seq<Token>, p: int) -> Option<(Option<ExprModel>, int)> {
    if kw_tok_at(toks, p, "WHERE"@) {
        match spec_expr(toks, p + 1, 0) {
            Some(t) => Some((Some(t.0), t.1)),
            None => None,
        }
    } else {
        Some((None, p))
    }
}

/// The optional GROUP BY clause.
#[verifier::opaque]
pub open spec fn spec_sel_group(toks: Seq<Token>, p: int) -> Option<
    (Option<Seq<ExprModel>>, int),
> {
    if kw_tok_at(toks, p, "GROUP"@) {
        if kw_tok_at(toks, p + 1, "BY"@) {
            match spec_expr_list(toks, p + 2) {
                Some(t) => Some((Some(t.0), t.1)),
                None => None,
            }
        } else {
            None
        }
    } else {
        Some((None, p))
    }
}

/// The optional HAVING clause.
#[verifier::opaque]
pub open spec fn spec_sel_having(toks: Seq<Token>, p: int) -> Option<(Option<ExprModel>, int)> {
    if kw_tok_at(toks, p, "HAVING"@) {
        match spec_expr(toks, p + 1, 0) {
            Some(t) => Some((Some(t.0), t.1)),
            None => None,
        }
    } else {
        Some((None, p))
    }
}

/// The optional ORDER BY clause.
#[verifier::opaque]
pub open spec fn spec_sel_order(toks: Seq<Token>, p: int) -> Option<
    (Option<Seq<(ExprModel, bool)>>, int),
> {
    if kw_tok_at(toks, p, "ORDER"@) {
        if kw_tok_at(toks, p + 1, "BY"@) {
            match spec_order_by(toks, p + 2) {
                Some(t) => Some((Some(t.0), t.1)),
                None => None,
            }
        } else {
            None
        }
    } else {
        Some((None, p))
    }
}

/// The optional LIMIT clause.
#[verifier::opaque]
pub open spec fn spec_sel_limit(toks: Seq<Token>, p: int) -> Option<
    (Option<(u64, Option<u64>)>, int),
> {
    if kw_tok_at(toks, p, "LIMIT"@) {
        match spec_limit(toks, p + 1) {
            Some(t) => Some((Some((t.0, t.1)), t.2)),
            None => None,
        }
    } else {
        Some((None, p))
    }
}

/// The optional clause chain of SELECT, after the table reference.
pub open spec fn spec_select_clauses(
    toks: Seq<Token>,
    p: int,
    cols: Seq<SelectColumnModel>,
    distinct: bool,
    from: (Seq<char>, Option<Seq<char>>),
) -> Option<(SelectModel, int)> {
    match spec_sel_where(toks, p) {
        Some(w) => {
            match spec_sel_group(toks, w.1) {
                Some(g) => spec_select_rest(toks, g.1, cols, distinct, from, w.0, g.0),
                None => None,
            }
        },
        None => None,
    }
}

/// The HAVING, ORDER BY and LIMIT clauses, the trailing-clause check and
/// the assembled statement: the rear half of the SELECT clause chain.
pub open spec fn spec_select_rest(
    toks: Seq<Token>,
    p: int,
    cols: Seq<SelectColumnModel>,
    distinct: bool,
    from: (Seq<char>, Option<Seq<char>>),
    w: Option<ExprModel>,
    g: Option<Seq<ExprModel>>,
) -> Option<(SelectModel, int)> {
    match spec_sel_having(toks, p) {
        Some(h) => {
            match spec_sel_order(toks, h.1) {
                Some(o) => {
                    match spec_sel_limit(toks, o.1) {
                        Some(l) => if sel_trailing(toks, l.1) is Some {
                            None
                        } else {
                            Some(
                                (
                                    SelectModel {
                                        columns: cols,
                                        distinct,
                                        from,
                                        where_clause: w,
                                        group_by: g,
                                        having: h.0,
                                        order_by: o.0,
                                        limit: l.0,
                                    },
                                    l.1,
                                ),
                            )
                        },
                        None => None,
                    }
                },
                None => None,
            }
        },
        None => None,
    }
}

/// The DELETE grammar: the keywords, the target table (alias only after an
/// explicit AS), then WHERE, ORDER BY and LIMIT in canonical order, each at
/// most once; a clause keyword left standing afterwards fails the parse.
/// The affected-row-count flag of the result is always set.
pub open spec fn spec_delete(toks: Seq<Token>, p: int) -> Option<(DeleteModel, int)> {
    if !(kw_tok_at(toks, p, "DELETE"@) && kw_tok_at(toks, p + 1, "FROM"@)) {
        None
    } else {
        match spec_table_ref(toks, p + 2, false) {
            Some(tr) => {
                match spec_sel_where(toks, tr.2) {
                    Some(w) => {
                        match spec_sel_order(toks, w.1) {
                            Some(o) => {
                                match spec_sel_limit(toks, o.1) {
                                    Some(l) => if del_trailing(toks, l.1) is Some {
                                        None
                                    } else {
                                        Some(
                                            (
                                                DeleteModel {
                                                    table: (tr.0, tr.1),
                                                    where_clause: w.0,
                                                    order_by: o.0,
                                                    limit: l.0,
                                                    is_return_count: true,
                                                },
                                                l.1,
                                            ),
                                        )
                                    },
                                    None => None,
                                }
                            },
                            None => None,
                        }
                    },
                    None => None,
                }
            },
            None => None,
        }
    }
}

/// The number of data sources among the parsed INSERT parts.
pub open spec fn spec_source_count(
    dflt: bool,
    values: Option<Seq<Seq<ExprModel>>>,
    sets: Option<Seq<(Seq<char>, ExprModel)>>,
    sel: Option<SelectModel>,
) -> int {
    (if dflt {
        1int
    } else {
        0int
    }) + (if values is Some {
        1int
    } else {
        0int
    }) + (if sets is Some {
        1int
    } else {
        0int
    }) + (if sel is Some {
        1int
    } else {
        0int
    })
}

/// The INSERT grammar: the keywords, the target table, the optional column
/// list, then exactly one data source — DEFAULT VALUES, a VALUES list, a
/// SET list or a SELECT subquery — and the optional ON DUPLICATE KEY
/// UPDATE clause; columns with DEFAULT VALUES, zero or several data
/// sources, or an ON keyword left standing fail the parse.
pub open spec fn spec_insert(toks: Seq<Token>, p: int) -> Option<(InsertModel, int)> {
    if !(kw_tok_at(toks, p, "INSERT"@) && kw_tok_at(toks, p + 1, "INTO"@)) {
        None
    } else {
        match spec_table_ref(toks, p + 2, false) {
            Some(tr) => match spec_insert_columns(toks, tr.2) {
                Some(c) => {
                    let dv = if kw_tok_at(toks, c.1, "DEFAULT"@) {
                        if kw_tok_at(toks, c.1 + 1, "VALUES"@) {
                            Some((true, c.1 + 2))
                        } else {
                            None
                        }
                    } else {
                        Some((false, c.1))
                    };
                    match dv {
                        Some(d) => if c.0 is Some && d.0 {
                            None
                        } else {
                            spec_insert_sources(toks, d.1, (tr.0, tr.1), c.0, d.0)
                        },
                        None => None,
                    }
                },
                None => None,
            },
            None => None,
        }
    }
}

/// The optional VALUES data source.
pub open spec fn spec_ins_values(toks: Seq<Token>, p: int) -> Option<
    (Option<Seq<Seq<ExprModel>>>, int),
> {
    if kw_tok_at(toks, p, "VALUES"@) {
        match spec_values_rows(toks, p + 1) {
            Some(t) => Some((Some(t.0), t.1)),
            None => None,
        }
    } else {
        Some((None, p))
    }
}

/// The optional SET data source.
pub open spec fn spec_ins_set(toks: Seq<Token>, p: int) -> Option<
    (Option<Seq<(Seq<char>, ExprModel)>>, int),
> {
    if kw_tok_at(toks, p, "SET"@) {
        match spec_assign_list(toks, p + 1) {
            Some(t) => Some((Some(t.0), t.1)),
            None => None,
        }
    } else {
        Some((None, p))
    }
}

/// The optional SELECT data source.
pub open spec fn spec_ins_select(toks: Seq<Token>, p: int) -> Option<(Option<SelectModel>, int)> {
    if kw_tok_at(toks, p, "SELECT"@) {
        match spec_select(toks, p) {
            Some(t) => Some((Some(t.0), t.1)),
            None => None,
        }
    } else {
        Some((None, p))
    }
}

/// The data sources and ON DUPLICATE clause of INSERT, after the column
/// list and DEFAULT VALUES were read.
pub open spec fn spec_insert_sources(
    toks: Seq<Token>,
    p: int,
    table: (Seq<char>, Option<Seq<char>>),
    columns: Option<Seq<Seq<char>>>,
    dflt: bool,
) -> Option<(InsertModel, int)> {
    match spec_ins_values(toks, p) {
        Some(v) => {
            match spec_ins_set(toks, v.1) {
                Some(st) => {
                    match spec_ins_select(toks, st.1) {
                        Some(q) => if spec_source_count(dflt, v.0, st.0, q.0) != 1 {
                            None
                        } else {
                            match spec_on_duplicate(toks, q.1) {
                                Some(od) => if kw_tok_at(toks, od.1, "ON"@) {
                                    None
                                } else {
                                    Some(
                                        (
                                            InsertModel {
                                                table,
                                                columns,
                                                values: v.0,
                                                select_clause: q.0,
                                                set_clause: st.0,
                                                on_duplicate: od.0,
                                                is_default_values: dflt,
                                                is_return_count: true,
                                            },
                                            od.1,
                                        ),
                                    )
                                },
                                None => None,
                            }
                        },
                        None => None,
                    }
                },
                None => None,
            }
        },
        None => None,
    }
}

/// Composition of the front half of the SELECT clause chain.
pub proof fn lemma_select_clauses_compose(
    toks: Seq<Token>,
    p: int,
    cols: Seq<SelectColumnModel>,
    distinct: bool,
    from: (Seq<char>, Option<Seq<char>>),
    w: (Option<ExprModel>, int),
    g: (Option<Seq<ExprModel>>, int),
    rest: Option<(SelectModel, int)>,
)
    requires
        spec_sel_where(toks, p) == Some(w),
        spec_sel_group(toks, w.1) == Some(g),
        spec_select_rest(toks, g.1, cols, distinct, from, w.0, g.0) == rest,
    ensures
        spec_select_clauses(toks, p, cols, distinct, from) == rest,
{
}

/// Absence in the front half of the SELECT clause chain is absence of the
/// whole.
pub proof fn lemma_select_clauses_none(
    toks: Seq<Token>,
    p: int,
    cols: Seq<SelectColumnModel>,
    distinct: bool,
    from: (Seq<char>, Option<Seq<char>>),
)
    requires
        ({
            ||| spec_sel_where(toks, p) is None
            ||| (spec_sel_where(toks, p) matches Some(w) && spec_sel_group(toks, w.1) is None)
        }),
    ensures
        spec_select_clauses(toks, p, cols, distinct, from) is None,
{
}

/// Composition of the rear half of the SELECT clause chain.
pub proof fn lemma_select_rest_compose(
    toks: Seq<Token>,
    p: int,
    cols: Seq<SelectColumnModel>,
    distinct: bool,
    from: (Seq<char>, Option<Seq<char>>),
    w: Option<ExprModel>,
    g: Option<Seq<ExprModel>>,
    h: (Option<ExprModel>, int),
    o: (Option<Seq<(ExprModel, bool)>>, int),
    l: (Option<(u64, Option<u64>)>, int),
)
    requires
        spec_sel_having(toks, p) == Some(h),
        spec_sel_order(toks, h.1) == Some(o),
        spec_sel_limit(toks, o.1) == Some(l),
        sel_trailing(toks, l.1) is None,
    ensures
        spec_select_rest(toks, p, cols, distinct, from, w, g) == Some(
            (
                SelectModel {
                    columns: cols,
                    distinct,
                    from,
                    where_clause: w,
                    group_by: g,
                    having: h.0,
                    order_by: o.0,
                    limit: l.0,
                },
                l.1,
            ),
        ),
{
}

/// Absence anywhere in the rear half of the SELECT clause chain is absence
/// of the whole rear half.
pub proof fn lemma_select_rest_none(
    toks: Seq<Token>,
    p: int,
    cols: Seq<SelectColumnModel>,
    distinct: bool,
    from: (Seq<char>, Option<Seq<char>>),
    w: Option<ExprModel>,
    g: Option<Seq<ExprModel>>,
)
    requires
        ({
            ||| spec_sel_having(toks, p) is None
            ||| (spec_sel_having(toks, p) matches Some(h) && (spec_sel_order(toks, h.1) is None
                || (spec_sel_order(toks, h.1) matches Some(o) && (spec_sel_limit(toks, o.1)
                is None || (spec_sel_limit(toks, o.1) matches Some(l) && sel_trailing(toks, l.1)
                is Some)))))
        }),
    ensures
        spec_select_rest(toks, p, cols, distinct, from, w, g) is None,
{
}

/// Composition of the DELETE grammar from its parts.
pub proof fn lemma_delete_compose(
    toks: Seq<Token>,
    p: int,
    tr: (Seq<char>, Option<Seq<char>>, int),
    w: (Option<ExprModel>, int),
    o: (Option<Seq<(ExprModel, bool)>>, int),
    l: (Option<(u64, Option<u64>)>, int),
)
    requires
        kw_tok_at(toks, p, "DELETE"@),
        kw_tok_at(toks, p + 1, "FROM"@),
        spec_table_ref(toks, p + 2, false) == Some(tr),
        spec_sel_where(toks, tr.2) == Some(w),
        spec_sel_order(toks, w.1) == Some(o),
        spec_sel_limit(toks, o.1) == Some(l),
        del_trailing(toks, l.1) is None,
    ensures
        spec_delete(toks, p) == Some(
            (
                DeleteModel {
                    table: (tr.0, tr.1),
                    where_clause: w.0,
                    order_by: o.0,
                    limit: l.0,
                    is_return_count: true,
                },
                l.1,
            ),
        ),
{
}

/// Absence anywhere in the DELETE grammar is absence of the whole.
pub proof fn lemma_delete_none(toks: Seq<Token>, p: int)
    requires
        ({
            ||| !kw_tok_at(toks, p, "DELETE"@)
            ||| !kw_tok_at(toks, p + 1, "FROM"@)
            ||| spec_table_ref(toks, p + 2, false) is None
            ||| (spec_table_ref(toks, p + 2, false) matches Some(tr) && (spec_sel_where(
                toks,
                tr.2,
            ) is None || (spec_sel_where(toks, tr.2) matches Some(w) && (spec_sel_order(toks, w.1)
                is None || (spec_sel_order(toks, w.1) matches Some(o) && (spec_sel_limit(
                toks,
                o.1,
            ) is None || (spec_sel_limit(toks, o.1) matches Some(l) && del_trailing(toks, l.1)
                is Some)))))))
        }),
    ensures
        spec_delete(toks, p) is None,
{
}

/// Composition of the INSERT data sources and tail from their parts.
pub proof fn lemma_insert_sources_compose(
    toks: Seq<Token>,
    p: int,
    table: (Seq<char>, Option<Seq<char>>),
    columns: Option<Seq<Seq<char>>>,
    dflt: bool,
    v: (Option<Seq<Seq<ExprModel>>>, int),
    st: (Option<Seq<(Seq<char>, ExprModel)>>, int),
    q: (Option<SelectModel>, int),
    od: (Option<Seq<(Seq<char>, ExprModel)>>, int),
)
    requires
        spec_ins_values(toks, p) == Some(v),
        spec_ins_set(toks, v.1) == Some(st),
        spec_ins_select(toks, st.1) == Some(q),
        spec_source_count(dflt, v.0, st.0, q.0) == 1,
        spec_on_duplicate(toks, q.1) == Some(od),
        !kw_tok_at(toks, od.1, "ON"@),
    ensures
        spec_insert_sources(toks, p, table, columns, dflt) == Some(
            (
                InsertModel {
                    table,
                    columns,
                    values: v.0,
                    select_clause: q.0,
                    set_clause: st.0,
                    on_duplicate: od.0,
                    is_default_values: dflt,
                    is_return_count: true,
                },
                od.1,
            ),
        ),
{
}

/// Absence anywhere among the INSERT data sources and tail is absence of
/// the whole.
pub proof fn lemma_insert_sources_none(
    toks: Seq<Token>,
    p: int,
    table: (Seq<char>, Option<Seq<char>>),
    columns: Option<Seq<Seq<char>>>,
    dflt: bool,
)
    requires
        ({
            ||| spec_ins_values(toks, p) is None
            ||| (spec_ins_values(toks, p) matches Some(v) && (spec_ins_set(toks, v.1) is None || (
            spec_ins_set(toks, v.1) matches Some(st) && (spec_ins_select(toks, st.1) is None || (
            spec_ins_select(toks, st.1) matches Some(q) && (spec_source_count(dflt, v.0, st.0, q.0)
                != 1 || (spec_on_duplicate(toks, q.1) is None || (spec_on_duplicate(toks, q.1)
                matches Some(od) && kw_tok_at(toks, od.1, "ON"@)))))))))
        }),
    ensures
        spec_insert_sources(toks, p, table, columns, dflt) is None,
{
}

/// Composition of the INSERT grammar head: with the keywords, the table,
/// the column list and the DEFAULT VALUES decision in hand, the whole
/// grammar is the data-source tail.
pub proof fn lemma_insert_compose(
    toks: Seq<Token>,
    p: int,
    tr: (Seq<char>, Option<Seq<char>>, int),
    c: (Option<Seq<Seq<char>>>, int),
    d: (bool, int),
)
    requires
        kw_tok_at(toks, p, "INSERT"@),
        kw_tok_at(toks, p + 1, "INTO"@),
        spec_table_ref(toks, p + 2, false) == Some(tr),
        spec_insert_columns(toks, tr.2) == Some(c),
        ({
            if kw_tok_at(toks, c.1, "DEFAULT"@) {
                kw_tok_at(toks, c.1 + 1, "VALUES"@) && d == (true, c.1 + 2)
            } else {
                d == (false, c.1)
            }
        }),
        !(c.0 is Some && d.0),
    ensures
        spec_insert(toks, p) == spec_insert_sources(toks, d.1, (tr.0, tr.1), c.0, d.0),
{
}

/// Absence in the INSERT grammar head is absence of the whole.
pub proof fn lemma_insert_none(toks: Seq<Token>, p: int)
    requires
        ({
            ||| !kw_tok_at(toks, p, "INSERT"@)
            ||| !kw_tok_at(toks, p + 1, "INTO"@)
            ||| spec_table_ref(toks, p + 2, false) is None
            ||| (spec_table_ref(toks, p + 2, false) matches Some(tr) && (spec_insert_columns(
                toks,
                tr.2,
            ) is None || (spec_insert_columns(toks, tr.2) matches Some(c) && ((kw_tok_at(
                toks,
                c.1,
                "DEFAULT"@,
            ) && !kw_tok_at(toks, c.1 + 1, "VALUES"@)) || (c.0 is Some && kw_tok_at(
                toks,
                c.1,
                "DEFAULT"@,
            ) && kw_tok_at(toks, c.1 + 1, "VALUES"@))))))
        }),
    ensures
        spec_insert(toks, p) is None,
{
}

/// Canonical clause order always succeeds: whenever the SELECT clauses
/// match in their canonical order — each present clause well formed, none
/// repeated, no clause keyword left over — the whole SELECT grammar
/// succeeds, and each optional field of the statement carries its clause's
/// parse exactly when the clause is present.
pub proof fn lemma_select_canonical_order(
    toks: Seq<Token>,
    p: int,
    cols: (Seq<SelectColumnModel>, bool, int),
    tr: (Seq<char>, Option<Seq<char>>, int),
    w: (Option<ExprModel>, int),
    g: (Option<Seq<ExprModel>>, int),
    h: (Option<ExprModel>, int),
    o: (Option<Seq<(ExprModel, bool)>>, int),
    l: (Option<(u64, Option<u64>)>, int),
)
    requires
        kw_tok_at(toks, p, "SELECT"@),
        spec_select_columns(toks, p + 1) == Some(cols),
        kw_tok_at(toks, cols.2, "FROM"@),
        spec_table_ref(toks, cols.2 + 1, true) == Some(tr),
        spec_sel_where(toks, tr.2) == Some(w),
        spec_sel_group(toks, w.1) == Some(g),
        spec_sel_having(toks, g.1) == Some(h),
        spec_sel_order(toks, h.1) == Some(o),
        spec_sel_limit(toks, o.1) == Some(l),
        sel_trailing(toks, l.1) is None,
    ensures
        spec_select(toks, p) == Some(
            (
                SelectModel {
                    columns: cols.0,
                    distinct: cols.1,
                    from: (tr.0, tr.1),
                    where_clause: w.0,
                    group_by: g.0,
                    having: h.0,
                    order_by: o.0,
                    limit: l.0,
                },
                l.1,
            ),
        ),
{
    lemma_select_rest_compose(toks, g.1, cols.0, cols.1, (tr.0, tr.1), w.0, g.0, h, o, l);
    lemma_select_clauses_compose(
        toks,
        tr.2,
        cols.0,
        cols.1,
        (tr.0, tr.1),
        w,
        g,
        spec_select_rest(toks, g.1, cols.0, cols.1, (tr.0, tr.1), w.0, g.0),
    );
}

} // verus!
