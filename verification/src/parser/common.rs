//! Clause parsers shared by the statement grammars: the monotonic clause
//! tracker, table references, ORDER BY lists and LIMIT clauses.

use vstd::prelude::*;
use super::stmtspec::{order_entries_view, spec_order_by, spec_order_by_tail, spec_order_entry};
use super::{ParseError, Parser};
use crate::ast::common::TableReference;
use crate::ast::expr::{LimitClause, OrderByExpr};
use crate::chars::upper_seq;
use crate::numeric::{parse_u64_text, spec_parse_u64};
use crate::strutil::{contains_at, contains_seq, str_to_chars};
use crate::token::{Token, TokenModel};

verus! {

/// Whether a keyword token with the given upper-cased text stands at index
/// `p` of the token sequence.
pub open spec fn kw_tok_at(toks: Seq<Token>, p: int, k: Seq<char>) -> bool {
    &&& 0 <= p < toks.len()
    &&& toks[p]@ matches TokenModel::Keyword(s) && upper_seq(s) == upper_seq(k)
}

/// Whether an identifier token stands at index `p`.
pub open spec fn ident_tok_at(toks: Seq<Token>, p: int) -> bool {
    &&& 0 <= p < toks.len()
    &&& toks[p]@ is Identifier
}

/// The text of the identifier token at index `p`.
pub open spec fn ident_text_at(toks: Seq<Token>, p: int) -> Seq<char> {
    toks[p]@->Identifier_0
}

/// The model of an optional string.
pub open spec fn opt_str_view(o: Option<String>) -> Option<Seq<char>> {
    match o {
        Some(s) => Some(s@),
        None => None,
    }
}

/// The table-reference grammar at a cursor position: an identifier as the
/// table name, then an optional alias, either after an explicit AS keyword
/// or — when `allow_as` is set — a bare following identifier. The result is
/// the name, the alias, and the position after the reference; absence means
/// the grammar does not match and parsing fails.
pub open spec fn spec_table_ref(toks: Seq<Token>, pos: int, allow_as: bool) -> Option<
    (Seq<char>, Option<Seq<char>>, int),
> {
    if ident_tok_at(toks, pos) {
        if kw_tok_at(toks, pos + 1, "AS"@) {
            if ident_tok_at(toks, pos + 2) {
                Some((ident_text_at(toks, pos), Some(ident_text_at(toks, pos + 2)), pos + 3))
            } else {
                None
            }
        } else if allow_as && ident_tok_at(toks, pos + 1) {
            Some((ident_text_at(toks, pos), Some(ident_text_at(toks, pos + 1)), pos + 2))
        } else {
            Some((ident_text_at(toks, pos), None, pos + 1))
        }
    } else {
        None
    }
}

/// The LIMIT-clause grammar at a cursor position: a numeric token whose
/// text is a non-negative 64-bit integer, then optionally the OFFSET
/// keyword and another such numeric token. The result is the limit, the
/// offset, and the position after the clause; absence means the clause is
/// malformed and parsing fails.
pub open spec fn spec_limit(toks: Seq<Token>, pos: int) -> Option<(u64, Option<u64>, int)> {
    if num_tok_at(toks, pos) && spec_parse_u64(num_text_at(toks, pos)) is Some {
        let lim = spec_parse_u64(num_text_at(toks, pos))->Some_0;
        if kw_tok_at(toks, pos + 1, "OFFSET"@) {
            if num_tok_at(toks, pos + 2) && spec_parse_u64(num_text_at(toks, pos + 2)) is Some {
                Some((lim, Some(spec_parse_u64(num_text_at(toks, pos + 2))->Some_0), pos + 3))
            } else {
                None
            }
        } else {
            Some((lim, None, pos + 1))
        }
    } else {
        None
    }
}

/// Whether an operator token with the given symbol stands at index `p`.
pub open spec fn op_tok_at(toks: Seq<Token>, p: int, sym: Seq<char>) -> bool {
    &&& 0 <= p < toks.len()
    &&& toks[p]@ matches TokenModel::Operator(s) && s == sym
}

/// Whether the given punctuator stands at index `p`.
pub open spec fn punct_tok_at(toks: Seq<Token>, p: int, c: char) -> bool {
    &&& 0 <= p < toks.len()
    &&& toks[p]@ matches TokenModel::Punctuator(q) && q == c
}

/// Whether a numeric-literal token stands at index `p`.
pub open spec fn num_tok_at(toks: Seq<Token>, p: int) -> bool {
    &&& 0 <= p < toks.len()
    &&& toks[p]@ is NumericLiteral
}

/// The text of the numeric-literal token at index `p`.
pub open spec fn num_text_at(toks: Seq<Token>, p: int) -> Seq<char> {
    toks[p]@->NumericLiteral_0
}

impl Parser {
    /// The monotonic clause tracker: a clause is accepted exactly when its
    /// ordinal exceeds the highest ordinal already consumed, and the
    /// tracked maximum advances only then. A violation is a clause-order
    /// error naming both clauses.
    pub fn move_current_idx<F: Fn(u8) -> &'static str>(
        &self,
        current_idx: u8,
        clause_idx: u8,
        get_clause_name: F,
    ) -> (r: Result<u8, ParseError>)
        requires
            self.wf(),
            forall|i: u8| #[trigger] get_clause_name.requires((i,)),
        ensures
            r is Ok <==> clause_idx > current_idx,
            r matches Ok(v) ==> v == clause_idx,
            r matches Err(e) ==> e.token_position == self.pos() && contains_seq(
                e.message@,
                " clause out of order, expected after "@,
            ),
            r matches Err(e) ==> exists|s1: &'static str, s2: &'static str|
                #![trigger get_clause_name.ensures((clause_idx,), s1), get_clause_name.ensures((current_idx,), s2)]
                get_clause_name.ensures((clause_idx,), s1) && get_clause_name.ensures(
                    (current_idx,),
                    s2,
                ) && contains_seq(e.message@, s1@) && contains_seq(e.message@, s2@),
    {
        if clause_idx > current_idx {
            Ok(clause_idx)
        } else {
            Err(self.clause_order_error(current_idx, clause_idx, get_clause_name))
        }
    }

    /// The clause-order error: its message names the offending clause and
    /// the clause it was expected after, with a context window.
    pub fn clause_order_error<F: Fn(u8) -> &'static str>(
        &self,
        current_idx: u8,
        clause_idx: u8,
        get_clause_name: F,
    ) -> (r: ParseError)
        requires
            self.wf(),
            forall|i: u8| #[trigger] get_clause_name.requires((i,)),
        ensures
            r.token_position == self.pos(),
            contains_seq(r.message@, " clause out of order, expected after "@),
            exists|s1: &'static str, s2: &'static str|
                #![trigger get_clause_name.ensures((clause_idx,), s1), get_clause_name.ensures((current_idx,), s2)]
                get_clause_name.ensures((clause_idx,), s1) && get_clause_name.ensures(
                    (current_idx,),
                    s2,
                ) && contains_seq(r.message@, s1@) && contains_seq(r.message@, s2@),
    {
        let context = self.get_error_context();
        let mut message = String::new();
        let name1 = get_clause_name(clause_idx);
        message.append(name1);
        let ghost n1 = message@;
        message.append(" clause out of order, expected after ");
        let ghost lit = " clause out of order, expected after "@;
        proof {
            assert(message@ == n1 + lit);
        }
        let name2 = get_clause_name(current_idx);
        message.append(name2);
        let ghost n2 = name2@;
        message.append(". Near: ");
        message.append(context.as_str());
        proof {
            assert(message@.subrange(n1.len() as int, (n1.len() + lit.len()) as int) =~= lit);
            assert(contains_at(message@, n1.len() as int, lit));
            assert(message@.subrange(0, n1.len() as int) =~= n1);
            assert(contains_at(message@, 0, n1));
            assert(message@.subrange(
                (n1.len() + lit.len()) as int,
                (n1.len() + lit.len() + n2.len()) as int,
            ) =~= n2);
            assert(contains_at(message@, (n1.len() + lit.len()) as int, n2));
        }
        self.make_error_here(message)
    }

    /// A parse error carrying the given message, at the cursor.
    fn make_error_here(&self, message: String) -> (r: ParseError)
        ensures
            r.token_position == self.pos(),
            r.message == message,
    {
        ParseError { message, token_position: self.current }
    }

    /// The table reference at the cursor, after `spec_table_ref`: the
    /// result and new position are exactly what the grammar gives, and an
    /// error is returned exactly when the grammar does not match.
    pub fn parse_table_reference(&mut self, allow_as_keyword: bool) -> (r: Result<
        TableReference,
        ParseError,
    >)
        requires
            old(self).wf(),
        ensures
            final(self).toks() == old(self).toks(),
            final(self).wf(),
            old(self).pos() <= final(self).pos(),
            match r {
                Ok(tr) => spec_table_ref(old(self).toks(), old(self).pos(), allow_as_keyword)
                    matches Some(t) && tr.name@ == t.0 && opt_str_view(tr.alias) == t.1
                    && final(self).pos() == t.2,
                Err(e) => spec_table_ref(old(self).toks(), old(self).pos(), allow_as_keyword)
                    is None && e.token_position == final(self).pos(),
            },
            r matches Err(e) ==> (!ident_tok_at(old(self).toks(), old(self).pos())
                ==> e.message@ == super::spec_error_msg(
                "Expected table name"@,
                old(self).toks(),
                old(self).pos(),
            )),
            r matches Err(e) ==> (ident_tok_at(old(self).toks(), old(self).pos())
                ==> e.message@ == super::spec_error_msg(
                "Expected alias after AS"@,
                old(self).toks(),
                old(self).pos() + 2,
            )),
    {
        let name = {
            let got: Option<String> = match self.peek() {
                Some(Token::Identifier(ident)) => Some(ident.clone()),
                _ => None,
            };
            match got {
                Some(n) => {
                    self.skip(1);
                    n
                },
                None => {
                    return Err(self.get_parse_error("Expected table name"));
                },
            }
        };
        let alias = if self.match_keyword("AS") {
            let got: Option<String> = match self.peek() {
                Some(Token::Identifier(ident)) => Some(ident.clone()),
                _ => None,
            };
            match got {
                Some(a) => {
                    self.skip(1);
                    Some(a)
                },
                None => {
                    return Err(self.get_parse_error("Expected alias after AS"));
                },
            }
        } else if allow_as_keyword {
            let got: Option<String> = match self.peek() {
                Some(Token::Identifier(ident)) => Some(ident.clone()),
                _ => None,
            };
            match got {
                Some(a) => {
                    self.skip(1);
                    Some(a)
                },
                None => None,
            }
        } else {
            None
        };
        Ok(TableReference { name, alias })
    }

    /// One or more `expr [ASC | DESC]` entries separated by commas, after
    /// `spec_order_by`: the entries' expressions and directions and the new
    /// position are exactly what the grammar gives (the direction defaults
    /// to ascending), and an error is returned exactly when it does not
    /// match.
    #[verifier::loop_isolation(false)]
    #[verifier::rlimit(100)]
    #[verifier::spinoff_prover]
    pub fn parse_order_by(&mut self) -> (r: Result<Vec<OrderByExpr>, ParseError>)
        requires
            old(self).wf(),
        ensures
            final(self).toks() == old(self).toks(),
            final(self).wf(),
            old(self).pos() <= final(self).pos(),
            r matches Ok(v) ==> v@.len() >= 1 && final(self).pos() > old(self).pos(),
            r is Ok <==> spec_order_by(old(self).toks(), old(self).pos()) is Some,
            r matches Ok(v) ==> spec_order_by(old(self).toks(), old(self).pos()) matches Some(t)
                && order_entries_view(v) == t.0 && final(self).pos() == t.1,
    {
        let ghost toks = old(self).toks();
        let ghost pos0 = old(self).pos();
        let mut order_by: Vec<OrderByExpr> = Vec::new();
        let ghost started = false;
        loop
            invariant
                self.wf(),
                self.toks() == old(self).toks(),
                old(self).pos() <= self.pos(),
                !started ==> self.pos() == pos0 && order_by@.len() == 0,
                started ==> self.pos() > pos0 && order_by@.len() >= 1,
                started ==> punct_tok_at(toks, self.pos() - 1, ',') && spec_order_by(toks, pos0)
                    == spec_order_by_tail(toks, self.pos() - 1, order_entries_view(order_by)),
            decreases self.toks().len() - self.pos(),
        {
            let ghost entry_pos = self.pos();
            let expr = match self.parse_expr(0) {
                Ok(e) => e,
                Err(e) => {
                    proof {
                        assert(spec_order_entry(toks, entry_pos) is None);
                    }
                    return Err(e);
                },
            };
            let ghost em = expr@;
            let asc = if self.match_keyword("DESC") {
                false
            } else {
                let _found_asc = self.match_keyword("ASC");
                true
            };
            proof {
                assert(spec_order_entry(toks, entry_pos) == Some(((em, asc), self.pos())));
            }
            let ghost before = order_entries_view(order_by);
            order_by.push(OrderByExpr { expr, asc });
            proof {
                assert(order_entries_view(order_by) =~= before.push((em, asc)));
                if started {
                    assert(spec_order_by(toks, pos0) == spec_order_by_tail(
                        toks,
                        self.pos(),
                        order_entries_view(order_by),
                    ));
                } else {
                    assert(seq![(em, asc)] =~= before.push((em, asc)));
                    assert(spec_order_by(toks, pos0) == spec_order_by_tail(
                        toks,
                        self.pos(),
                        order_entries_view(order_by),
                    ));
                }
            }
            proof {
                started = true;
            }
            if !self.match_punctuator(',') {
                proof {
                    assert(spec_order_by_tail(toks, self.pos(), order_entries_view(order_by))
                        == Some((order_entries_view(order_by), self.pos())));
                }
                return Ok(order_by);
            }
        }
    }

    /// The LIMIT clause at the cursor, after `spec_limit`: the limit and
    /// offset values and the new position are exactly what the grammar
    /// gives, and an error is returned exactly when the clause is
    /// malformed.
    pub fn parse_limit(&mut self) -> (r: Result<LimitClause, ParseError>)
        requires
            old(self).wf(),
        ensures
            final(self).toks() == old(self).toks(),
            final(self).wf(),
            old(self).pos() <= final(self).pos(),
            match r {
                Ok(lc) => spec_limit(old(self).toks(), old(self).pos()) matches Some(t)
                    && lc.limit == t.0 && lc.offset == t.1 && final(self).pos() == t.2,
                Err(e) => spec_limit(old(self).toks(), old(self).pos()) is None
                    && e.token_position == final(self).pos(),
            },
    {
        let limit_val: Option<u64> = match self.peek() {
            Some(Token::NumericLiteral(value)) => {
                let cs = str_to_chars(value.as_str());
                parse_u64_text(&cs)
            },
            _ => None,
        };
        let limit = match limit_val {
            Some(v) => {
                self.skip(1);
                v
            },
            None => {
                return Err(self.get_parse_error("Expected integer after LIMIT"));
            },
        };
        let offset = if self.match_keyword("OFFSET") {
            let off_val: Option<u64> = match self.peek() {
                Some(Token::NumericLiteral(value)) => {
                    let cs = str_to_chars(value.as_str());
                    parse_u64_text(&cs)
                },
                _ => None,
            };
            match off_val {
                Some(v) => {
                    self.skip(1);
                    Some(v)
                },
                None => {
                    return Err(self.get_parse_error("Expected integer after OFFSET"));
                },
            }
        } else {
            None
        };
        Ok(LimitClause { limit, offset })
    }
}

} // verus!
