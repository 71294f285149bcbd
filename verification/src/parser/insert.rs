//! The INSERT statement grammar.

use vstd::prelude::*;
use super::common::{kw_tok_at, punct_tok_at, spec_table_ref};
use super::stmtspec::{
    assigns_view, exprs_vec_view, insert_stmt_view, lemma_insert_compose, lemma_insert_none,
    lemma_insert_sources_compose, lemma_insert_sources_none, rows_view, spec_assign,
    spec_assign_list, spec_assign_list_tail, spec_expr_list, spec_expr_list_tail,
    spec_ident_list, spec_ident_list_tail, spec_ins_select, spec_ins_set, spec_ins_values,
    spec_insert, spec_insert_columns, spec_insert_sources, spec_on_duplicate, spec_source_count,
    spec_values_row, spec_values_rows, spec_values_rows_tail, strings_view, select_stmt_view,
    table_ref_view,
};
use super::{cursor_ok, ParseError, Parser};
use crate::ast::expr::{expr_view, Expr};
use crate::ast::insert::{insert_wf, InsertStatement, OnDuplicateClause};
use crate::ast::select::SelectStatement;
use crate::token::Token;

verus! {

/// The INSERT statement-parsing interface.
pub trait InsertStatementParser {
    type Error;

    fn parse_insert_statement(&mut self) -> Result<InsertStatement, Self::Error>;
}

/// The fixed clause order of INSERT, as ordinals.
const INTO_IDX: u8 = 0;

const VALUES_IDX: u8 = 1;

const ON_DUPLICATE_KEY_UPDATE_IDX: u8 = 2;

/// The display name of an INSERT clause ordinal.
fn get_clause_name(idx: u8) -> &'static str {
    match idx {
        1 => "VALUES",
        2 => "ON_DUPLICATE_KEY_UPDATE",
        _ => "INTO",
    }
}

impl Parser {
    /// A SELECT subquery as the INSERT data source, after
    /// `spec_ins_select`: present exactly when the SELECT keyword stands at
    /// the cursor and the subquery grammar matches there.
    fn parse_select_clause(&mut self) -> (r: Result<Option<SelectStatement>, ParseError>)
        requires
            old(self).wf(),
        ensures
            cursor_ok(*old(self), *final(self)),
            r is Ok <==> spec_ins_select(old(self).toks(), old(self).pos()) is Some,
            r matches Ok(o) ==> spec_ins_select(old(self).toks(), old(self).pos())
                matches Some(t) && (match o {
                Some(sel) => Some(select_stmt_view(sel)),
                None => None,
            }) == t.0 && final(self).pos() == t.1,
    {
        if self.is_keyword("SELECT") {
            match Parser::parse_select_statement(self) {
                Ok(s) => Ok(Some(s)),
                Err(e) => Err(e),
            }
        } else {
            Ok(None)
        }
    }

    /// One parenthesized VALUES row, after `spec_values_row`: `()` yields a
    /// zero-length row, otherwise an expression list closed by `)`.
    #[verifier::loop_isolation(false)]
    #[verifier::rlimit(100)]
    #[verifier::spinoff_prover]
    fn parse_values_row(&mut self) -> (r: Result<Vec<Expr>, ParseError>)
        requires
            old(self).wf(),
        ensures
            cursor_ok(*old(self), *final(self)),
            r is Ok ==> final(self).pos() > old(self).pos(),
            r is Ok <==> spec_values_row(old(self).toks(), old(self).pos()) is Some,
            r matches Ok(row) ==> spec_values_row(old(self).toks(), old(self).pos())
                matches Some(t) && exprs_vec_view(row) == t.0 && final(self).pos() == t.1,
    {
        let ghost toks = old(self).toks();
        let ghost pos0 = old(self).pos();
        if !self.match_punctuator('(') {
            return Err(self.get_parse_error("Expected opening parenthesis"));
        }
        if self.match_punctuator(')') {
            let row: Vec<Expr> = Vec::new();
            proof {
                assert(exprs_vec_view(row) =~= Seq::<crate::ast::expr::ExprModel>::empty());
            }
            return Ok(row);
        }
        let ghost p_list = self.pos();
        let mut value_list: Vec<Expr> = Vec::new();
        let ghost started = false;
        loop
            invariant
                self.wf(),
                self.toks() == old(self).toks(),
                p_list <= self.pos(),
                !started ==> self.pos() == p_list && value_list@.len() == 0,
                started ==> self.pos() > p_list && value_list@.len() >= 1,
                started ==> punct_tok_at(toks, self.pos() - 1, ',') && spec_expr_list(
                    toks,
                    p_list,
                ) == spec_expr_list_tail(toks, self.pos() - 1, exprs_vec_view(value_list)),
            decreases self.toks().len() - self.pos(),
        {
            let value = match self.parse_expr(0) {
                Ok(e) => e,
                Err(e) => {
                    return Err(e);
                },
            };
            let ghost em = value@;
            let ghost before = exprs_vec_view(value_list);
            value_list.push(value);
            proof {
                assert(exprs_vec_view(value_list) =~= before.push(em));
                if !started {
                    assert(seq![em] =~= before.push(em));
                }
            }
            proof {
                started = true;
            }
            if !self.match_punctuator(',') {
                proof {
                    assert(spec_expr_list_tail(toks, self.pos(), exprs_vec_view(value_list))
                        == Some((exprs_vec_view(value_list), self.pos())));
                }
                break;
            }
        }
        if !self.match_punctuator(')') {
            return Err(self.get_parse_error("Expected closing parenthesis"));
        }
        Ok(value_list)
    }

    /// The VALUES data source, after `spec_ins_values`: present exactly
    /// when the VALUES keyword stands at the cursor, carrying its
    /// comma-separated parenthesized rows.
    #[verifier::loop_isolation(false)]
    #[verifier::rlimit(100)]
    #[verifier::spinoff_prover]
    fn parse_values_clause(&mut self) -> (r: Result<Option<Vec<Vec<Expr>>>, ParseError>)
        requires
            old(self).wf(),
        ensures
            cursor_ok(*old(self), *final(self)),
            r is Ok <==> spec_ins_values(old(self).toks(), old(self).pos()) is Some,
            r matches Ok(o) ==> spec_ins_values(old(self).toks(), old(self).pos())
                matches Some(t) && (match o {
                Some(rows) => Some(rows_view(rows)),
                None => None,
            }) == t.0 && final(self).pos() == t.1,
    {
        let ghost toks = old(self).toks();
        if !self.match_keyword("VALUES") {
            return Ok(None);
        }
        let ghost p_rows = self.pos();
        let mut values: Vec<Vec<Expr>> = Vec::new();
        let ghost started = false;
        loop
            invariant
                self.wf(),
                self.toks() == old(self).toks(),
                p_rows <= self.pos(),
                !started ==> self.pos() == p_rows && values@.len() == 0,
                started ==> self.pos() > p_rows && values@.len() >= 1,
                started ==> punct_tok_at(toks, self.pos() - 1, ',') && spec_values_rows(
                    toks,
                    p_rows,
                ) == spec_values_rows_tail(toks, self.pos() - 1, rows_view(values)),
            decreases self.toks().len() - self.pos(),
        {
            let row = match self.parse_values_row() {
                Ok(v) => v,
                Err(e) => {
                    return Err(e);
                },
            };
            let ghost rm = exprs_vec_view(row);
            let ghost before = rows_view(values);
            values.push(row);
            proof {
                assert(rows_view(values) =~= before.push(rm));
                if !started {
                    assert(seq![rm] =~= before.push(rm));
                }
            }
            proof {
                started = true;
            }
            if !self.match_punctuator(',') {
                proof {
                    assert(spec_values_rows_tail(toks, self.pos(), rows_view(values)) == Some(
                        (rows_view(values), self.pos()),
                    ));
                }
                return Ok(Some(values));
            }
        }
    }

    /// A comma-separated list of `column = expr` assignments, after
    /// `spec_assign_list`.
    #[verifier::loop_isolation(false)]
    #[verifier::rlimit(100)]
    #[verifier::spinoff_prover]
    fn parse_assign_list(&mut self) -> (r: Result<Vec<(String, Expr)>, ParseError>)
        requires
            old(self).wf(),
        ensures
            cursor_ok(*old(self), *final(self)),
            r is Ok ==> final(self).pos() > old(self).pos(),
            r is Ok <==> spec_assign_list(old(self).toks(), old(self).pos()) is Some,
            r matches Ok(v) ==> spec_assign_list(old(self).toks(), old(self).pos())
                matches Some(t) && assigns_view(v) == t.0 && final(self).pos() == t.1,
    {
        let ghost toks = old(self).toks();
        let ghost p_list = old(self).pos();
        let mut assigns: Vec<(String, Expr)> = Vec::new();
        let ghost started = false;
        loop
            invariant
                self.wf(),
                self.toks() == old(self).toks(),
                p_list <= self.pos(),
                !started ==> self.pos() == p_list && assigns@.len() == 0,
                started ==> self.pos() > p_list && assigns@.len() >= 1,
                started ==> punct_tok_at(toks, self.pos() - 1, ',') && spec_assign_list(
                    toks,
                    p_list,
                ) == spec_assign_list_tail(toks, self.pos() - 1, assigns_view(assigns)),
            decreases self.toks().len() - self.pos(),
        {
            let ghost entry_pos = self.pos();
            let column = {
                let got: Option<String> = match self.peek() {
                    Some(Token::Identifier(ident)) => Some(ident.clone()),
                    _ => None,
                };
                match got {
                    Some(n) => {
                        self.skip(1);
                        n
                    },
                    None => {
                        proof {
                            assert(spec_assign(toks, entry_pos) is None);
                        }
                        return Err(self.get_parse_error("Expected column name"));
                    },
                }
            };
            if !self.match_operator("=") {
                proof {
                    assert(spec_assign(toks, entry_pos) is None);
                }
                return Err(self.get_parse_error("Expected = after column name"));
            }
            let value = match self.parse_expr(0) {
                Ok(e) => e,
                Err(e) => {
                    proof {
                        assert(spec_assign(toks, entry_pos) is None);
                    }
                    return Err(e);
                },
            };
            let ghost sm = column@;
            let ghost em = value@;
            proof {
                assert(spec_assign(toks, entry_pos) == Some(((sm, em), self.pos())));
            }
            let ghost before = assigns_view(assigns);
            assigns.push((column, value));
            proof {
                assert(assigns_view(assigns) =~= before.push((sm, em)));
                if !started {
                    assert(seq![(sm, em)] =~= before.push((sm, em)));
                }
            }
            proof {
                started = true;
            }
            if !self.match_punctuator(',') {
                proof {
                    assert(spec_assign_list_tail(toks, self.pos(), assigns_view(assigns))
                        == Some((assigns_view(assigns), self.pos())));
                }
                return Ok(assigns);
            }
        }
    }

    /// The SET data source, after `spec_ins_set`: present exactly when the
    /// SET keyword stands at the cursor, carrying its assignments.
    fn parse_set_clause(&mut self) -> (r: Result<Option<Vec<(String, Expr)>>, ParseError>)
        requires
            old(self).wf(),
        ensures
            cursor_ok(*old(self), *final(self)),
            r is Ok <==> spec_ins_set(old(self).toks(), old(self).pos()) is Some,
            r matches Ok(o) ==> spec_ins_set(old(self).toks(), old(self).pos()) matches Some(t)
                && (match o {
                Some(v) => Some(assigns_view(v)),
                None => None,
            }) == t.0 && final(self).pos() == t.1,
    {
        if !self.match_keyword("SET") {
            return Ok(None);
        }
        match self.parse_assign_list() {
            Ok(v) => Ok(Some(v)),
            Err(e) => Err(e),
        }
    }

    /// The optional parenthesized column list after the table name, after
    /// `spec_insert_columns`: absent when no `(` stands at the cursor; an
    /// empty list `()` is accepted and kept as an empty list.
    #[verifier::loop_isolation(false)]
    #[verifier::rlimit(100)]
    #[verifier::spinoff_prover]
    pub fn parse_insert_columns(&mut self) -> (r: Result<Option<Vec<String>>, ParseError>)
        requires
            old(self).wf(),
        ensures
            cursor_ok(*old(self), *final(self)),
            r is Ok <==> spec_insert_columns(old(self).toks(), old(self).pos()) is Some,
            r matches Ok(o) ==> spec_insert_columns(old(self).toks(), old(self).pos())
                matches Some(t) && (match o {
                Some(v) => Some(strings_view(v)),
                None => None,
            }) == t.0 && final(self).pos() == t.1,
    {
        let ghost toks = old(self).toks();
        let ghost pos0 = old(self).pos();
        if !self.match_punctuator('(') {
            return Ok(None);
        }
        let mut column_list: Vec<String> = Vec::new();
        if self.match_punctuator(')') {
            proof {
                assert(strings_view(column_list) =~= Seq::<Seq<char>>::empty());
            }
            return Ok(Some(column_list));
        }
        let ghost p_items = self.pos();
        let ghost started = false;
        loop
            invariant
                self.wf(),
                self.toks() == old(self).toks(),
                p_items <= self.pos(),
                !started ==> self.pos() == p_items && column_list@.len() == 0,
                started ==> self.pos() > p_items && column_list@.len() >= 1,
                started ==> punct_tok_at(toks, self.pos() - 1, ',') && spec_ident_list(
                    toks,
                    p_items,
                ) == spec_ident_list_tail(toks, self.pos() - 1, strings_view(column_list)),
            decreases self.toks().len() - self.pos(),
        {
            let got: Option<String> = match self.peek() {
                Some(Token::Identifier(ident)) => Some(ident.clone()),
                _ => None,
            };
            match got {
                Some(column) => {
                    let ghost sm = column@;
                    let ghost before = strings_view(column_list);
                    self.skip(1);
                    column_list.push(column);
                    proof {
                        assert(strings_view(column_list) =~= before.push(sm));
                        if !started {
                            assert(seq![sm] =~= before.push(sm));
                        }
                    }
                },
                None => {
                    return Err(self.get_parse_error("Expected column name"));
                },
            };
            proof {
                started = true;
            }
            if !self.match_punctuator(',') {
                proof {
                    assert(spec_ident_list_tail(toks, self.pos(), strings_view(column_list))
                        == Some((strings_view(column_list), self.pos())));
                }
                break;
            }
        }
        if !self.match_punctuator(')') {
            return Err(self.get_parse_error("Expected closing parenthesis"));
        }
        Ok(Some(column_list))
    }

    /// The DEFAULT VALUES data source: true exactly when `DEFAULT VALUES`
    /// stands at the cursor, false with the cursor untouched when DEFAULT
    /// does not; DEFAULT without VALUES is a parse error.
    pub fn parse_default_values(&mut self) -> (r: Result<bool, ParseError>)
        requires
            old(self).wf(),
        ensures
            cursor_ok(*old(self), *final(self)),
            !old(self).kw_at("DEFAULT"@) ==> (r matches Ok(b) && b == false && final(self).pos()
                == old(self).pos()),
            old(self).kw_at("DEFAULT"@) && kw_tok_at(
                old(self).toks(),
                old(self).pos() + 1,
                "VALUES"@,
            ) ==> (r matches Ok(b) && b && final(self).pos() == old(self).pos() + 2),
            old(self).kw_at("DEFAULT"@) && !kw_tok_at(
                old(self).toks(),
                old(self).pos() + 1,
                "VALUES"@,
            ) ==> r is Err,
    {
        if self.match_keyword("DEFAULT") {
            if self.match_keyword("VALUES") {
                Ok(true)
            } else {
                Err(self.get_parse_error("Expected VALUES after DEFAULT"))
            }
        } else {
            Ok(false)
        }
    }

    /// The optional ON DUPLICATE KEY UPDATE clause, after
    /// `spec_on_duplicate`: absent when no ON keyword stands at the
    /// cursor; after ON, the full keyword sequence and an assignment list
    /// are demanded.
    #[verifier::rlimit(100)]
    #[verifier::spinoff_prover]
    fn parse_on_duplicate_key_update(&mut self) -> (r: Result<Option<OnDuplicateClause>, ParseError>)
        requires
            old(self).wf(),
        ensures
            cursor_ok(*old(self), *final(self)),
            r is Ok <==> spec_on_duplicate(old(self).toks(), old(self).pos()) is Some,
            r matches Ok(o) ==> spec_on_duplicate(old(self).toks(), old(self).pos())
                matches Some(t) && (match o {
                Some(c) => Some(assigns_view(c.updates)),
                None => None,
            }) == t.0 && final(self).pos() == t.1,
    {
        if !self.match_keyword("ON") {
            return Ok(None);
        }
        if !self.match_keyword("DUPLICATE") {
            return Err(self.get_parse_error("Expected DUPLICATE after ON"));
        }
        if !self.match_keyword("KEY") {
            return Err(self.get_parse_error("Expected KEY after ON DUPLICATE"));
        }
        if !self.match_keyword("UPDATE") {
            return Err(self.get_parse_error("Expected UPDATE after ON DUPLICATE KEY"));
        }
        match self.parse_assign_list() {
            Ok(updates) => Ok(Some(OnDuplicateClause { updates })),
            Err(e) => Err(e),
        }
    }

    /// The INSERT grammar, after `spec_insert`: `INSERT INTO table
    /// [(columns)] data-source [ON DUPLICATE KEY UPDATE assignments]`,
    /// where the data source is exactly one of DEFAULT VALUES, a VALUES
    /// list, a SET list, or a SELECT subquery. A column list combined with
    /// DEFAULT VALUES, more than one data source, no data source at all,
    /// or a trailing ON keyword is a parse error, so every returned
    /// statement satisfies `insert_wf`.
    #[verifier::rlimit(100)]
    #[verifier::spinoff_prover]
    pub fn parse_insert_statement(&mut self) -> (r: Result<InsertStatement, ParseError>)
        requires
            old(self).wf(),
        ensures
            cursor_ok(*old(self), *final(self)),
            r matches Ok(stmt) ==> insert_wf(stmt) && stmt.is_return_count && final(self).pos()
                > old(self).pos(),
            r is Ok <==> spec_insert(old(self).toks(), old(self).pos()) is Some,
            r matches Ok(stmt) ==> spec_insert(old(self).toks(), old(self).pos())
                matches Some(t) && insert_stmt_view(stmt) == t.0 && final(self).pos() == t.1,
    {
        let ghost toks = old(self).toks();
        let ghost pos0 = old(self).pos();
        if !self.match_keyword("INSERT") {
            proof {
                lemma_insert_none(toks, pos0);
            }
            return Err(self.get_parse_error("Expected INSERT"));
        }
        if !self.match_keyword("INTO") {
            proof {
                lemma_insert_none(toks, pos0);
            }
            return Err(self.get_parse_error("Expected INTO"));
        }
        let table = match self.parse_table_reference(false) {
            Ok(t) => t,
            Err(e) => {
                proof {
                    lemma_insert_none(toks, pos0);
                }
                return Err(e);
            },
        };
        let ghost tr_m = table_ref_view(table);
        let ghost p_tr = self.pos();
        let columns = match self.parse_insert_columns() {
            Ok(c) => c,
            Err(e) => {
                proof {
                    lemma_insert_none(toks, pos0);
                }
                return Err(e);
            },
        };
        let ghost c_m = (match &columns {
            Some(v) => Some(strings_view(*v)),
            None => None,
        });
        let ghost p_c = self.pos();
        let is_default_values = match self.parse_default_values() {
            Ok(b) => b,
            Err(e) => {
                proof {
                    lemma_insert_none(toks, pos0);
                }
                return Err(e);
            },
        };
        let ghost p_d = self.pos();
        if columns.is_some() && is_default_values {
            proof {
                lemma_insert_none(toks, pos0);
            }
            return Err(self.get_parse_error("Cannot specify columns with DEFAULT VALUES"));
        }
        let r = self.parse_insert_sources(table, columns, is_default_values);
        proof {
            lemma_insert_compose(
                toks,
                pos0,
                (tr_m.0, tr_m.1, p_tr),
                (c_m, p_c),
                (is_default_values, p_d),
            );
        }
        r
    }

    /// The data sources and ON DUPLICATE clause of INSERT, after
    /// `spec_insert_sources`: exactly one data source, then the optional ON
    /// DUPLICATE KEY UPDATE clause, with no ON keyword left standing.
    #[verifier::rlimit(100)]
    #[verifier::spinoff_prover]
    fn parse_insert_sources(
        &mut self,
        table: crate::ast::common::TableReference,
        columns: Option<Vec<String>>,
        is_default_values: bool,
    ) -> (r: Result<InsertStatement, ParseError>)
        requires
            old(self).wf(),
            !(columns is Some && is_default_values),
        ensures
            cursor_ok(*old(self), *final(self)),
            r matches Ok(stmt) ==> insert_wf(stmt) && stmt.is_return_count,
            r is Ok <==> spec_insert_sources(
                old(self).toks(),
                old(self).pos(),
                table_ref_view(table),
                (match columns {
                    Some(v) => Some(strings_view(v)),
                    None => None,
                }),
                is_default_values,
            ) is Some,
            r matches Ok(stmt) ==> spec_insert_sources(
                old(self).toks(),
                old(self).pos(),
                table_ref_view(table),
                (match columns {
                    Some(v) => Some(strings_view(v)),
                    None => None,
                }),
                is_default_values,
            ) matches Some(t) && insert_stmt_view(stmt) == t.0 && final(self).pos() == t.1,
    {
        let ghost toks = old(self).toks();
        let ghost pos0 = old(self).pos();
        let ghost tbl_m = table_ref_view(table);
        let ghost c_m = (match &columns {
            Some(v) => Some(strings_view(*v)),
            None => None,
        });
        let values = match self.parse_values_clause() {
            Ok(v) => v,
            Err(e) => {
                proof {
                    lemma_insert_sources_none(toks, pos0, tbl_m, c_m, is_default_values);
                }
                return Err(e);
            },
        };
        let ghost v_m = (match &values {
            Some(v) => Some(rows_view(*v)),
            None => None,
        });
        let ghost p_v = self.pos();
        let set_clause = match self.parse_set_clause() {
            Ok(s) => s,
            Err(e) => {
                proof {
                    lemma_insert_sources_none(toks, pos0, tbl_m, c_m, is_default_values);
                }
                return Err(e);
            },
        };
        let ghost s_m = (match &set_clause {
            Some(v) => Some(assigns_view(*v)),
            None => None,
        });
        let ghost p_s = self.pos();
        let select_clause = match self.parse_select_clause() {
            Ok(s) => s,
            Err(e) => {
                proof {
                    lemma_insert_sources_none(toks, pos0, tbl_m, c_m, is_default_values);
                }
                return Err(e);
            },
        };
        let ghost q_m = (match &select_clause {
            Some(sel) => Some(select_stmt_view(*sel)),
            None => None,
        });
        let ghost p_q = self.pos();
        let mut data_sources: usize = 0;
        if is_default_values {
            data_sources += 1;
        }
        if values.is_some() {
            data_sources += 1;
        }
        if set_clause.is_some() {
            data_sources += 1;
        }
        if select_clause.is_some() {
            data_sources += 1;
        }
        proof {
            assert(spec_source_count(is_default_values, v_m, s_m, q_m) == data_sources as int);
        }
        if data_sources > 1 {
            proof {
                lemma_insert_sources_none(toks, pos0, tbl_m, c_m, is_default_values);
            }
            return Err(self.get_parse_error("Cannot specify multiple value sources"));
        }
        if data_sources == 0 {
            proof {
                lemma_insert_sources_none(toks, pos0, tbl_m, c_m, is_default_values);
            }
            return Err(self.get_parse_error("Expected VALUES, SELECT, DEFAULT VALUES or SET"));
        }
        let current_idx: u8 = VALUES_IDX;
        let on_duplicate = match self.parse_on_duplicate_key_update() {
            Ok(o) => o,
            Err(e) => {
                proof {
                    lemma_insert_sources_none(toks, pos0, tbl_m, c_m, is_default_values);
                }
                return Err(e);
            },
        };
        let ghost od_m = (match &on_duplicate {
            Some(c) => Some(assigns_view(c.updates)),
            None => None,
        });
        let ghost p_od = self.pos();
        if on_duplicate.is_some() {
            match self.move_current_idx(current_idx, ON_DUPLICATE_KEY_UPDATE_IDX, get_clause_name) {
                Ok(_v) => {},
                Err(e) => {
                    return Err(e);
                },
            };
        }
        // An ON keyword still at the cursor is a repeated or out-of-order
        // ON DUPLICATE KEY UPDATE clause.
        if self.is_keyword("ON") {
            proof {
                lemma_insert_sources_none(toks, pos0, tbl_m, c_m, is_default_values);
            }
            let after = if on_duplicate.is_some() {
                ON_DUPLICATE_KEY_UPDATE_IDX
            } else {
                current_idx
            };
            return Err(self.clause_order_error(after, ON_DUPLICATE_KEY_UPDATE_IDX, get_clause_name));
        }
        let ghost model = super::stmtspec::InsertModel {
            table: tbl_m,
            columns: c_m,
            values: v_m,
            select_clause: q_m,
            set_clause: s_m,
            on_duplicate: od_m,
            is_default_values: is_default_values,
            is_return_count: true,
        };
        proof {
            lemma_insert_sources_compose(
                toks,
                pos0,
                tbl_m,
                c_m,
                is_default_values,
                (v_m, p_v),
                (s_m, p_s),
                (q_m, p_q),
                (od_m, p_od),
            );
        }
        let stmt = InsertStatement {
            table,
            columns,
            values,
            select_clause,
            set_clause,
            on_duplicate,
            is_default_values,
            is_return_count: true,
        };
        proof {
            assert(insert_stmt_view(stmt) == model);
        }
        Ok(stmt)
    }
}

impl InsertStatementParser for Parser {
    type Error = ParseError;

    /// The statement grammar behind the interface; the cursor bound is
    /// re-checked because unverified callers reach this entry.
    fn parse_insert_statement(&mut self) -> Result<InsertStatement, ParseError> {
        if self.cursor_in_bounds() {
            Parser::parse_insert_statement(self)
        } else {
            Err(self.cursor_bound_error())
        }
    }
}

} // verus!
