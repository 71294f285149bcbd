//! The SELECT statement grammar.

use vstd::prelude::*;
use super::common::{ident_text_at, ident_tok_at, kw_tok_at, opt_str_view, punct_tok_at};
use super::stmtspec::{
    exprs_vec_view, select_col_view, select_cols_view, select_stmt_view, spec_cols_list,
    spec_cols_list_tail, spec_expr_list, spec_expr_list_tail, spec_select, spec_select_columns,
    SelectColumnModel,
};
use super::{cursor_ok, ParseError, Parser};
use crate::ast::expr::{expr_view, Expr};
use crate::ast::select::{SelectColumn, SelectStatement};
use crate::token::Token;

verus! {

/// The select-column grammar at a cursor position: an identifier as the
/// column name, then an optional alias after an explicit AS keyword. The
/// result is the name, the alias, and the position after the column;
/// absence means the grammar does not match and parsing fails.
pub open spec fn spec_select_column(toks: Seq<crate::token::Token>, pos: int) -> Option<
    (Seq<char>, Option<Seq<char>>, int),
> {
    if ident_tok_at(toks, pos) {
        if kw_tok_at(toks, pos + 1, "AS"@) {
            if ident_tok_at(toks, pos + 2) {
                Some((ident_text_at(toks, pos), Some(ident_text_at(toks, pos + 2)), pos + 3))
            } else {
                None
            }
        } else {
            Some((ident_text_at(toks, pos), None, pos + 1))
        }
    } else {
        None
    }
}

/// The SELECT statement-parsing interface.
pub trait SelectStatementParser {
    type Error;

    fn parse_select_statement(&mut self) -> Result<SelectStatement, Self::Error>;
}

/// The fixed clause order of SELECT, as ordinals.
const FROM_IDX: u8 = 0;

const WHERE_IDX: u8 = 1;

const GROUP_BY_IDX: u8 = 2;

const HAVING_IDX: u8 = 3;

const ORDER_BY_IDX: u8 = 4;

const LIMIT_IDX: u8 = 5;

/// The display name of a SELECT clause ordinal.
fn get_clause_name(idx: u8) -> &'static str {
    match idx {
        1 => "WHERE",
        2 => "GROUP BY",
        3 => "HAVING",
        4 => "ORDER BY",
        5 => "LIMIT",
        _ => "FROM",
    }
}

impl Parser {
    /// One selected column, after `spec_select_column`: an identifier with
    /// an optional AS alias; the result and new position are exactly what
    /// the grammar gives, and an error is returned exactly when it does
    /// not match.
    fn parse_select_column(&mut self) -> (r: Result<SelectColumn, ParseError>)
        requires
            old(self).wf(),
        ensures
            cursor_ok(*old(self), *final(self)),
            r is Ok ==> final(self).pos() > old(self).pos(),
            match r {
                Ok(col) => spec_select_column(old(self).toks(), old(self).pos()) matches Some(t)
                    && (col matches SelectColumn::Column { name, alias } && name@ == t.0
                    && opt_str_view(alias) == t.1) && final(self).pos() == t.2,
                Err(e) => spec_select_column(old(self).toks(), old(self).pos()) is None
                    && e.token_position == final(self).pos(),
            },
    {
        let name = {
            let got: Option<String> = match self.peek() {
                Some(Token::Identifier(ident)) => Some(ident.clone()),
                _ => None,
            };
            match got {
                Some(n) => {
                    self.skip(1);
                    n
                },
                None => {
                    return Err(self.get_parse_error("Expected column name"));
                },
            }
        };
        let alias = if self.match_keyword("AS") {
            let got: Option<String> = match self.peek() {
                Some(Token::Identifier(ident)) => Some(ident.clone()),
                _ => None,
            };
            match got {
                Some(a) => {
                    self.skip(1);
                    Some(a)
                },
                None => {
                    return Err(self.get_parse_error("Expected alias after AS"));
                },
            }
        } else {
            None
        };
        Ok(SelectColumn::Column { name, alias })
    }

    /// The column list after SELECT: an optional DISTINCT or ALL, then `*`
    /// or one or more columns separated by commas.
    #[verifier::loop_isolation(false)]
    #[verifier::rlimit(100)]
    #[verifier::spinoff_prover]
    fn parse_select_columns(&mut self) -> (r: Result<(Vec<SelectColumn>, bool), ParseError>)
        requires
            old(self).wf(),
        ensures
            cursor_ok(*old(self), *final(self)),
            r matches Ok(p) ==> p.0@.len() >= 1 && final(self).pos() > old(self).pos(),
            r is Ok <==> spec_select_columns(old(self).toks(), old(self).pos()) is Some,
            r matches Ok(p) ==> spec_select_columns(old(self).toks(), old(self).pos())
                matches Some(t) && select_cols_view(p.0) == t.0 && p.1 == t.1 && final(self).pos()
                == t.2,
    {
        let ghost toks = old(self).toks();
        let ghost pos0 = old(self).pos();
        let mut columns: Vec<SelectColumn> = Vec::new();
        let distinct = if self.match_keyword("DISTINCT") {
            true
        } else if self.match_keyword("ALL") {
            false
        } else {
            false
        };
        let ghost p1 = self.pos();
        if self.match_operator("*") {
            columns.push(SelectColumn::Wildcard);
            proof {
                assert(select_cols_view(columns) =~= seq![SelectColumnModel::Wildcard]);
            }
            return Ok((columns, distinct));
        }
        let ghost started = false;
        loop
            invariant
                self.wf(),
                self.toks() == old(self).toks(),
                pos0 <= p1 <= self.pos(),
                distinct == kw_tok_at(toks, pos0, "DISTINCT"@),
                p1 == (if kw_tok_at(toks, pos0, "DISTINCT"@) || kw_tok_at(toks, pos0, "ALL"@) {
                    pos0 + 1
                } else {
                    pos0
                }),
                !super::common::op_tok_at(toks, p1, "*"@),
                !started ==> self.pos() == p1 && columns@.len() == 0,
                started ==> self.pos() > p1 && columns@.len() >= 1,
                started ==> punct_tok_at(toks, self.pos() - 1, ',') && spec_cols_list(toks, p1)
                    == spec_cols_list_tail(toks, self.pos() - 1, select_cols_view(columns)),
            decreases self.toks().len() - self.pos(),
        {
            let ghost entry_pos = self.pos();
            let col = match self.parse_select_column() {
                Ok(c) => c,
                Err(e) => {
                    proof {
                        assert(spec_select_column(toks, entry_pos) is None);
                    }
                    return Err(e);
                },
            };
            let ghost cm = select_col_view(col);
            let ghost before = select_cols_view(columns);
            columns.push(col);
            proof {
                assert(select_cols_view(columns) =~= before.push(cm));
                if !started {
                    assert(seq![cm] =~= before.push(cm));
                }
            }
            proof {
                started = true;
            }
            if !self.match_punctuator(',') {
                proof {
                    assert(spec_cols_list_tail(toks, self.pos(), select_cols_view(columns))
                        == Some((select_cols_view(columns), self.pos())));
                }
                return Ok((columns, distinct));
            }
        }
    }

    /// The GROUP BY expression list: one or more expressions separated by
    /// commas.
    #[verifier::loop_isolation(false)]
    #[verifier::rlimit(100)]
    #[verifier::spinoff_prover]
    fn parse_group_exr(&mut self) -> (r: Result<Vec<Expr>, ParseError>)
        requires
            old(self).wf(),
        ensures
            cursor_ok(*old(self), *final(self)),
            r matches Ok(v) ==> v@.len() >= 1 && final(self).pos() > old(self).pos(),
            r is Ok <==> spec_expr_list(old(self).toks(), old(self).pos()) is Some,
            r matches Ok(v) ==> spec_expr_list(old(self).toks(), old(self).pos()) matches Some(t)
                && exprs_vec_view(v) == t.0 && final(self).pos() == t.1,
    {
        let ghost toks = old(self).toks();
        let ghost pos0 = old(self).pos();
        let mut group_by: Vec<Expr> = Vec::new();
        let ghost started = false;
        loop
            invariant
                self.wf(),
                self.toks() == old(self).toks(),
                pos0 <= self.pos(),
                !started ==> self.pos() == pos0 && group_by@.len() == 0,
                started ==> self.pos() > pos0 && group_by@.len() >= 1,
                started ==> punct_tok_at(toks, self.pos() - 1, ',') && spec_expr_list(toks, pos0)
                    == spec_expr_list_tail(toks, self.pos() - 1, exprs_vec_view(group_by)),
            decreases self.toks().len() - self.pos(),
        {
            let expr = match self.parse_expr(0) {
                Ok(e) => e,
                Err(e) => {
                    return Err(e);
                },
            };
            let ghost em = expr@;
            let ghost before = exprs_vec_view(group_by);
            group_by.push(expr);
            proof {
                assert(exprs_vec_view(group_by) =~= before.push(em));
                if !started {
                    assert(seq![em] =~= before.push(em));
                }
            }
            proof {
                started = true;
            }
            if !self.match_punctuator(',') {
                proof {
                    assert(spec_expr_list_tail(toks, self.pos(), exprs_vec_view(group_by))
                        == Some((exprs_vec_view(group_by), self.pos())));
                }
                return Ok(group_by);
            }
        }
    }

    /// The SELECT grammar: `SELECT [DISTINCT | ALL] columns FROM table
    /// [WHERE expr] [GROUP BY exprs] [HAVING expr] [ORDER BY entries]
    /// [LIMIT clause]`, with the optional clauses accepted only in that
    /// order, each at most once.
    #[verifier::rlimit(100)]
    #[verifier::spinoff_prover]
    pub fn parse_select_statement(&mut self) -> (r: Result<SelectStatement, ParseError>)
        requires
            old(self).wf(),
        ensures
            cursor_ok(*old(self), *final(self)),
            r is Ok ==> final(self).pos() > old(self).pos(),
            r matches Ok(stmt) ==> stmt.columns@.len() >= 1,
            r is Ok <==> spec_select(old(self).toks(), old(self).pos()) is Some,
            r matches Ok(stmt) ==> spec_select(old(self).toks(), old(self).pos()) matches Some(t)
                && select_stmt_view(stmt) == t.0 && final(self).pos() == t.1,
    {
        let ghost toks = old(self).toks();
        let ghost pos0 = old(self).pos();
        if !self.match_keyword("SELECT") {
            return Err(self.get_parse_error("Expected SELECT"));
        }
        let (columns, distinct) = match self.parse_select_columns() {
            Ok(p) => p,
            Err(e) => {
                return Err(e);
            },
        };
        let ghost cols_m = select_cols_view(columns);
        let ghost p_cols = self.pos();
        if !self.match_keyword("FROM") {
            return Err(self.get_parse_error("Expected FROM"));
        }
        let from = match self.parse_table_reference(true) {
            Ok(t) => t,
            Err(e) => {
                return Err(e);
            },
        };
        let ghost from_m = super::stmtspec::table_ref_view(from);
        let ghost p_tr = self.pos();
        let r = self.parse_select_tail(columns, distinct, from);
        proof {
            if r is Ok {
                assert(spec_select(toks, pos0) == super::stmtspec::spec_select_clauses(
                    toks,
                    p_tr,
                    cols_m,
                    distinct,
                    from_m,
                ));
            }
        }
        return r;
    }

    /// The optional clause chain of SELECT after the table reference,
    /// after `spec_select_clauses`.
    #[verifier::rlimit(100)]
    #[verifier::spinoff_prover]
    fn parse_select_tail(
        &mut self,
        columns: Vec<SelectColumn>,
        distinct: bool,
        from: crate::ast::common::TableReference,
    ) -> (r: Result<SelectStatement, ParseError>)
        requires
            old(self).wf(),
        ensures
            cursor_ok(*old(self), *final(self)),
            r is Ok <==> super::stmtspec::spec_select_clauses(
                old(self).toks(),
                old(self).pos(),
                select_cols_view(columns),
                distinct,
                super::stmtspec::table_ref_view(from),
            ) is Some,
            r matches Ok(stmt) ==> super::stmtspec::spec_select_clauses(
                old(self).toks(),
                old(self).pos(),
                select_cols_view(columns),
                distinct,
                super::stmtspec::table_ref_view(from),
            ) matches Some(t) && select_stmt_view(stmt) == t.0 && final(self).pos() == t.1,
            r matches Ok(stmt) ==> stmt.columns@.len() == columns@.len(),
    {
        let ghost toks = old(self).toks();
        let ghost cols_m = select_cols_view(columns);
        let ghost from_m = super::stmtspec::table_ref_view(from);
        let ghost p_tr = old(self).pos();
        let mut current_idx: u8 = FROM_IDX;
        let where_clause = if self.match_keyword("WHERE") {
            current_idx = match self.move_current_idx(current_idx, WHERE_IDX, get_clause_name) {
                Ok(v) => v,
                Err(e) => {
                    return Err(e);
                },
            };
            match self.parse_expr(0) {
                Ok(e) => Some(e),
                Err(e) => {
                    proof {
                        reveal(super::stmtspec::spec_sel_where);
                        assert(super::stmtspec::spec_sel_where(toks, p_tr) is None);
                        super::stmtspec::lemma_select_clauses_none(
                            toks,
                            p_tr,
                            cols_m,
                            distinct,
                            from_m,
                        );
                    }
                    return Err(e);
                },
            }
        } else {
            None
        };
        let ghost w_m = (match &where_clause {
            Some(e) => Some(expr_view(*e)),
            None => None,
        });
        let ghost p_w = self.pos();
        proof {
            reveal(super::stmtspec::spec_sel_where);
            assert(super::stmtspec::spec_sel_where(toks, p_tr) == Some((w_m, p_w)));
        }
        let group_by = if self.match_keyword("GROUP") {
            if !self.match_keyword("BY") {
                proof {
                    reveal(super::stmtspec::spec_sel_group);
                    assert(super::stmtspec::spec_sel_group(toks, p_w) is None);
                    super::stmtspec::lemma_select_clauses_none(
                        toks,
                        p_tr,
                        cols_m,
                        distinct,
                        from_m,
                    );
                }
                return Err(self.get_parse_error("Expected BY after GROUP"));
            }
            current_idx = match self.move_current_idx(current_idx, GROUP_BY_IDX, get_clause_name) {
                Ok(v) => v,
                Err(e) => {
                    return Err(e);
                },
            };
            match self.parse_group_exr() {
                Ok(v) => Some(v),
                Err(e) => {
                    proof {
                        reveal(super::stmtspec::spec_sel_group);
                        assert(super::stmtspec::spec_sel_group(toks, p_w) is None);
                        super::stmtspec::lemma_select_clauses_none(
                            toks,
                            p_tr,
                            cols_m,
                            distinct,
                            from_m,
                        );
                    }
                    return Err(e);
                },
            }
        } else {
            None
        };
        let ghost g_m = (match &group_by {
            Some(v) => Some(exprs_vec_view(*v)),
            None => None,
        });
        let ghost p_g = self.pos();
        proof {
            reveal(super::stmtspec::spec_sel_group);
            assert(super::stmtspec::spec_sel_group(toks, p_w) == Some((g_m, p_g)));
        }
        let r = self.parse_select_rest(columns, distinct, from, where_clause, group_by, current_idx);
        proof {
            super::stmtspec::lemma_select_clauses_compose(
                toks,
                p_tr,
                cols_m,
                distinct,
                from_m,
                (w_m, p_w),
                (g_m, p_g),
                super::stmtspec::spec_select_rest(toks, p_g, cols_m, distinct, from_m, w_m, g_m),
            );
        }
        return r;
    }

    /// The HAVING, ORDER BY and LIMIT clauses of SELECT, the
    /// trailing-clause check and the assembled statement, after
    /// `spec_select_rest`.
    #[verifier::rlimit(100)]
    #[verifier::spinoff_prover]
    fn parse_select_rest(
        &mut self,
        columns: Vec<SelectColumn>,
        distinct: bool,
        from: crate::ast::common::TableReference,
        where_clause: Option<Expr>,
        group_by: Option<Vec<Expr>>,
        current_idx_in: u8,
    ) -> (r: Result<SelectStatement, ParseError>)
        requires
            old(self).wf(),
            current_idx_in <= 2,
        ensures
            cursor_ok(*old(self), *final(self)),
            r is Ok <==> super::stmtspec::spec_select_rest(
                old(self).toks(),
                old(self).pos(),
                select_cols_view(columns),
                distinct,
                super::stmtspec::table_ref_view(from),
                (match &where_clause {
                    Some(e) => Some(expr_view(*e)),
                    None => None,
                }),
                (match &group_by {
                    Some(v) => Some(exprs_vec_view(*v)),
                    None => None,
                }),
            ) is Some,
            r matches Ok(stmt) ==> super::stmtspec::spec_select_rest(
                old(self).toks(),
                old(self).pos(),
                select_cols_view(columns),
                distinct,
                super::stmtspec::table_ref_view(from),
                (match &where_clause {
                    Some(e) => Some(expr_view(*e)),
                    None => None,
                }),
                (match &group_by {
                    Some(v) => Some(exprs_vec_view(*v)),
                    None => None,
                }),
            ) matches Some(t) && select_stmt_view(stmt) == t.0 && final(self).pos() == t.1,
            r matches Ok(stmt) ==> stmt.columns@.len() == columns@.len(),
    {
        let ghost toks = old(self).toks();
        let ghost cols_m = select_cols_view(columns);
        let ghost from_m = super::stmtspec::table_ref_view(from);
        let ghost w_m = (match &where_clause {
            Some(e) => Some(expr_view(*e)),
            None => None,
        });
        let ghost g_m = (match &group_by {
            Some(v) => Some(exprs_vec_view(*v)),
            None => None,
        });
        let ghost p_g = old(self).pos();
        let mut current_idx: u8 = current_idx_in;
        let having = if self.match_keyword("HAVING") {
            current_idx = match self.move_current_idx(current_idx, HAVING_IDX, get_clause_name) {
                Ok(v) => v,
                Err(e) => {
                    return Err(e);
                },
            };
            match self.parse_expr(0) {
                Ok(e) => Some(e),
                Err(e) => {
                    proof {
                        reveal(super::stmtspec::spec_sel_having);
                        assert(super::stmtspec::spec_sel_having(toks, p_g) is None);
                        super::stmtspec::lemma_select_rest_none(
                            toks,
                            p_g,
                            cols_m,
                            distinct,
                            from_m,
                            w_m,
                            g_m,
                        );
                    }
                    return Err(e);
                },
            }
        } else {
            None
        };
        let ghost h_m = (match &having {
            Some(e) => Some(expr_view(*e)),
            None => None,
        });
        let ghost p_h = self.pos();
        proof {
            reveal(super::stmtspec::spec_sel_having);
            assert(super::stmtspec::spec_sel_having(toks, p_g) == Some((h_m, p_h)));
        }
        let order_by = if self.match_keyword("ORDER") {
            if !self.match_keyword("BY") {
                proof {
                    reveal(super::stmtspec::spec_sel_order);
                    assert(super::stmtspec::spec_sel_order(toks, p_h) is None);
                    super::stmtspec::lemma_select_rest_none(
                        toks,
                        p_g,
                        cols_m,
                        distinct,
                        from_m,
                        w_m,
                        g_m,
                    );
                }
                return Err(self.get_parse_error("Expected BY after ORDER"));
            }
            current_idx = match self.move_current_idx(current_idx, ORDER_BY_IDX, get_clause_name) {
                Ok(v) => v,
                Err(e) => {
                    return Err(e);
                },
            };
            match self.parse_order_by() {
                Ok(v) => Some(v),
                Err(e) => {
                    proof {
                        reveal(super::stmtspec::spec_sel_order);
                        assert(super::stmtspec::spec_sel_order(toks, p_h) is None);
                        super::stmtspec::lemma_select_rest_none(
                            toks,
                            p_g,
                            cols_m,
                            distinct,
                            from_m,
                            w_m,
                            g_m,
                        );
                    }
                    return Err(e);
                },
            }
        } else {
            None
        };
        let ghost o_m = (match &order_by {
            Some(v) => Some(super::stmtspec::order_entries_view(*v)),
            None => None,
        });
        let ghost p_o = self.pos();
        proof {
            reveal(super::stmtspec::spec_sel_order);
            assert(super::stmtspec::spec_sel_order(toks, p_h) == Some((o_m, p_o)));
        }
        let limit = if self.match_keyword("LIMIT") {
            match self.move_current_idx(current_idx, LIMIT_IDX, get_clause_name) {
                Ok(_v) => {},
                Err(e) => {
                    return Err(e);
                },
            };
            match self.parse_limit() {
                Ok(v) => Some(v),
                Err(e) => {
                    proof {
                        reveal(super::stmtspec::spec_sel_limit);
                        assert(super::stmtspec::spec_sel_limit(toks, p_o) is None);
                        super::stmtspec::lemma_select_rest_none(
                            toks,
                            p_g,
                            cols_m,
                            distinct,
                            from_m,
                            w_m,
                            g_m,
                        );
                    }
                    return Err(e);
                },
            }
        } else {
            None
        };
        let ghost l_m = (match &limit {
            Some(lc) => Some((lc.limit, lc.offset)),
            None => None,
        });
        let ghost p_l = self.pos();
        proof {
            reveal(super::stmtspec::spec_sel_limit);
            assert(super::stmtspec::spec_sel_limit(toks, p_o) == Some((l_m, p_l)));
        }
        // A clause keyword still at the cursor is out of order or repeated:
        // its ordinal cannot pass the tracked maximum again.
        let trailing: Option<u8> = if self.is_keyword("WHERE") {
            Some(WHERE_IDX)
        } else if self.is_keyword("GROUP") {
            Some(GROUP_BY_IDX)
        } else if self.is_keyword("HAVING") {
            Some(HAVING_IDX)
        } else if self.is_keyword("ORDER") {
            Some(ORDER_BY_IDX)
        } else if self.is_keyword("LIMIT") {
            Some(LIMIT_IDX)
        } else {
            None
        };
        match trailing {
            Some(idx) => {
                proof {
                    assert(super::stmtspec::sel_trailing(toks, p_l) is Some);
                    super::stmtspec::lemma_select_rest_none(
                        toks,
                        p_g,
                        cols_m,
                        distinct,
                        from_m,
                        w_m,
                        g_m,
                    );
                }
                return Err(self.clause_order_error(current_idx, idx, get_clause_name));
            },
            None => {},
        }
        let ghost model = super::stmtspec::SelectModel {
            columns: cols_m,
            distinct: distinct,
            from: from_m,
            where_clause: w_m,
            group_by: g_m,
            having: h_m,
            order_by: o_m,
            limit: l_m,
        };
        proof {
            assert(super::stmtspec::sel_trailing(toks, p_l) is None);
            super::stmtspec::lemma_select_rest_compose(
                toks,
                p_g,
                cols_m,
                distinct,
                from_m,
                w_m,
                g_m,
                (h_m, p_h),
                (o_m, p_o),
                (l_m, p_l),
            );
        }
        let stmt = SelectStatement {
            columns,
            distinct,
            from,
            where_clause,
            group_by,
            having,
            order_by,
            limit,
        };
        proof {
            assert(select_stmt_view(stmt) == model);
        }
        Ok(stmt)
    }
}

impl SelectStatementParser for Parser {
    type Error = ParseError;

    /// The statement grammar behind the interface; the cursor bound is
    /// re-checked because unverified callers reach this entry.
    fn parse_select_statement(&mut self) -> Result<SelectStatement, ParseError> {
        if self.cursor_in_bounds() {
            Parser::parse_select_statement(self)
        } else {
            Err(self.cursor_bound_error())
        }
    }
}

} // verus!
