//! The DELETE statement grammar.

use vstd::prelude::*;
use super::common::{kw_tok_at, opt_str_view, spec_table_ref};
use super::stmtspec::{
    delete_stmt_view, exprs_vec_view, lemma_delete_compose, lemma_delete_none,
    order_entries_view, spec_delete,
};
use super::{cursor_ok, ParseError, Parser};
use crate::ast::delete::DeleteStatement;
use crate::ast::expr::expr_view;

verus! {

/// The DELETE statement-parsing interface.
pub trait DeleteStatementParser {
    type Error;

    fn parse_delete_statement(&mut self) -> Result<DeleteStatement, Self::Error>;
}

/// The fixed clause order of DELETE, as ordinals.
const FROM_IDX: u8 = 0;

const WHERE_IDX: u8 = 1;

const ORDER_BY_IDX: u8 = 2;

const LIMIT_IDX: u8 = 3;

/// The display name of a DELETE clause ordinal.
fn get_clause_name(idx: u8) -> &'static str {
    match idx {
        1 => "WHERE",
        2 => "ORDER BY",
        3 => "LIMIT",
        _ => "FROM",
    }
}

impl Parser {
    /// The DELETE grammar: `DELETE FROM table [WHERE expr]
    /// [ORDER BY entries] [LIMIT clause]`, the optional clauses accepted
    /// only in that order, each at most once. The target table takes an
    /// alias only after an explicit AS. The affected-row-count flag of the
    /// result is always set.
    #[verifier::rlimit(100)]
    #[verifier::spinoff_prover]
    pub fn parse_delete_statement(&mut self) -> (r: Result<DeleteStatement, ParseError>)
        requires
            old(self).wf(),
        ensures
            cursor_ok(*old(self), *final(self)),
            r matches Ok(stmt) ==> final(self).pos() > old(self).pos() && stmt.is_return_count,
            r is Ok <==> spec_delete(old(self).toks(), old(self).pos()) is Some,
            r matches Ok(stmt) ==> spec_delete(old(self).toks(), old(self).pos()) matches Some(t)
                && delete_stmt_view(stmt) == t.0 && final(self).pos() == t.1,
    {
        let ghost toks = old(self).toks();
        let ghost pos0 = old(self).pos();
        if !self.match_keyword("DELETE") {
            return Err(self.get_parse_error("Expected DELETE"));
        }
        if !self.match_keyword("FROM") {
            return Err(self.get_parse_error("Expected FROM"));
        }
        let table = match self.parse_table_reference(false) {
            Ok(t) => t,
            Err(e) => {
                proof {
                    lemma_delete_none(toks, pos0);
                }
                return Err(e);
            },
        };
        let ghost tr_m = super::stmtspec::table_ref_view(table);
        let ghost p_tr = self.pos();
        let mut current_idx: u8 = FROM_IDX;
        let where_clause = if self.match_keyword("WHERE") {
            current_idx = match self.move_current_idx(current_idx, WHERE_IDX, get_clause_name) {
                Ok(v) => v,
                Err(e) => {
                    return Err(e);
                },
            };
            match self.parse_expr(0) {
                Ok(e) => Some(e),
                Err(e) => {
                    proof {
                        reveal(super::stmtspec::spec_sel_where);
                        assert(super::stmtspec::spec_sel_where(toks, p_tr) is None);
                        lemma_delete_none(toks, pos0);
                    }
                    return Err(e);
                },
            }
        } else {
            None
        };
        let ghost w_m = (match &where_clause {
            Some(e) => Some(expr_view(*e)),
            None => None,
        });
        let ghost p_w = self.pos();
        proof {
            reveal(super::stmtspec::spec_sel_where);
            assert(super::stmtspec::spec_sel_where(toks, p_tr) == Some((w_m, p_w)));
        }
        let order_by = if self.match_keyword("ORDER") {
            if !self.match_keyword("BY") {
                proof {
                    reveal(super::stmtspec::spec_sel_order);
                    assert(super::stmtspec::spec_sel_order(toks, p_w) is None);
                    lemma_delete_none(toks, pos0);
                }
                return Err(self.get_parse_error("Expected BY after ORDER"));
            }
            current_idx = match self.move_current_idx(current_idx, ORDER_BY_IDX, get_clause_name) {
                Ok(v) => v,
                Err(e) => {
                    return Err(e);
                },
            };
            match self.parse_order_by() {
                Ok(v) => Some(v),
                Err(e) => {
                    proof {
                        reveal(super::stmtspec::spec_sel_order);
                        assert(super::stmtspec::spec_sel_order(toks, p_w) is None);
                        lemma_delete_none(toks, pos0);
                    }
                    return Err(e);
                },
            }
        } else {
            None
        };
        let ghost o_m = (match &order_by {
            Some(v) => Some(order_entries_view(*v)),
            None => None,
        });
        let ghost p_o = self.pos();
        proof {
            reveal(super::stmtspec::spec_sel_order);
            assert(super::stmtspec::spec_sel_order(toks, p_w) == Some((o_m, p_o)));
        }
        let limit = if self.match_keyword("LIMIT") {
            match self.move_current_idx(current_idx, LIMIT_IDX, get_clause_name) {
                Ok(_v) => {},
                Err(e) => {
                    return Err(e);
                },
            };
            match self.parse_limit() {
                Ok(v) => Some(v),
                Err(e) => {
                    proof {
                        reveal(super::stmtspec::spec_sel_limit);
                        assert(super::stmtspec::spec_sel_limit(toks, p_o) is None);
                        lemma_delete_none(toks, pos0);
                    }
                    return Err(e);
                },
            }
        } else {
            None
        };
        let ghost l_m = (match &limit {
            Some(lc) => Some((lc.limit, lc.offset)),
            None => None,
        });
        let ghost p_l = self.pos();
        proof {
            reveal(super::stmtspec::spec_sel_limit);
            assert(super::stmtspec::spec_sel_limit(toks, p_o) == Some((l_m, p_l)));
        }
        // A clause keyword still at the cursor is out of order or repeated:
        // its ordinal cannot pass the tracked maximum again.
        let trailing: Option<u8> = if self.is_keyword("WHERE") {
            Some(WHERE_IDX)
        } else if self.is_keyword("ORDER") {
            Some(ORDER_BY_IDX)
        } else if self.is_keyword("LIMIT") {
            Some(LIMIT_IDX)
        } else {
            None
        };
        match trailing {
            Some(idx) => {
                proof {
                    assert(super::stmtspec::del_trailing(toks, p_l) is Some);
                    lemma_delete_none(toks, pos0);
                }
                return Err(self.clause_order_error(current_idx, idx, get_clause_name));
            },
            None => {},
        }
        let ghost model = super::stmtspec::DeleteModel {
            table: (tr_m.0, tr_m.1),
            where_clause: w_m,
            order_by: o_m,
            limit: l_m,
            is_return_count: true,
        };
        proof {
            assert(super::stmtspec::del_trailing(toks, p_l) is None);
            lemma_delete_compose(
                toks,
                pos0,
                (tr_m.0, tr_m.1, p_tr),
                (w_m, p_w),
                (o_m, p_o),
                (l_m, p_l),
            );
        }
        let stmt = DeleteStatement { table, where_clause, order_by, limit, is_return_count: true };
        proof {
            assert(delete_stmt_view(stmt) == model);
        }
        Ok(stmt)
    }
}

impl DeleteStatementParser for Parser {
    type Error = ParseError;

    /// The statement grammar behind the interface; the cursor bound is
    /// re-checked because unverified callers reach this entry.
    fn parse_delete_statement(&mut self) -> Result<DeleteStatement, ParseError> {
        if self.cursor_in_bounds() {
            Parser::parse_delete_statement(self)
        } else {
            Err(self.cursor_bound_error())
        }
    }
}

} // verus!
