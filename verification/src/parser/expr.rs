//! The precedence-climbing expression parser.
//!
//! Each function owns one precedence tier, loosest binding first: OR, AND,
//! unary NOT, comparison, additive, multiplicative, unary sign, primary.
//! Recursion into parenthesized sub-expressions is bounded by
//! `MAX_EXPR_DEPTH`; exceeding the bound is a parse error, never a stack
//! overflow.

use vstd::prelude::*;
use super::common::{num_text_at, num_tok_at};
use super::exprspec::{
    add_op_at, deep_nesting_err, depth_excess, lemma_add_some_not_deep, lemma_and_some_not_deep,
    lemma_deep_parens_none, lemma_mul_some_not_deep, lemma_not_some_not_deep,
    lemma_unary_some_not_deep, mul_op_at, opens_through, spec_add, spec_add_tail, spec_and,
    spec_and_tail, spec_cmp, spec_expr, spec_mul, spec_mul_tail, spec_not, spec_or, spec_or_tail,
    spec_primary, spec_unary,
};
use super::{cursor_ok, ParseError, Parser};
use crate::ast::expr::{
    expr_view, exprs_view, exprs_view_from, BinaryOperator, Expr, ExprModel, LogicalOperator,
    UnaryOperator, Value,
};
use crate::chars::upper_seq;
use crate::numeric::{is_float_literal, is_float_text, parse_i64_text, spec_parse_i64};
use crate::strutil::{chars_to_string, str_eq, str_to_chars};
use crate::token::{Token, TokenModel};

verus! {

/// The bound on expression-recursion depth.
pub const MAX_EXPR_DEPTH: usize = 100;

/// The comparison operator denoted by an operator symbol, if any.
pub open spec fn comp_op_of(sym: Seq<char>) -> Option<BinaryOperator> {
    if sym == "="@ {
        Some(BinaryOperator::Eq)
    } else if sym == "!="@ || sym == "<>"@ {
        Some(BinaryOperator::NotEq)
    } else if sym == "<"@ {
        Some(BinaryOperator::Lt)
    } else if sym == "<="@ {
        Some(BinaryOperator::LtEq)
    } else if sym == ">"@ {
        Some(BinaryOperator::Gt)
    } else if sym == ">="@ {
        Some(BinaryOperator::GtEq)
    } else {
        None
    }
}

/// The comparison operator at index `p` of the token sequence, if any.
pub open spec fn comp_op_at(toks: Seq<Token>, p: int) -> Option<BinaryOperator> {
    if 0 <= p < toks.len() {
        match toks[p]@ {
            TokenModel::Operator(s) => comp_op_of(s),
            _ => None,
        }
    } else {
        None
    }
}

/// Whether a dot occurs in the character sequence.
pub open spec fn has_dot(s: Seq<char>) -> bool {
    exists|i: int| 0 <= i < s.len() && s[i] == '.'
}

/// Whether the token is an opening parenthesis.
pub open spec fn is_open_paren_tok(t: TokenModel) -> bool {
    match t {
        TokenModel::Punctuator(c) => c == '(',
        _ => false,
    }
}

/// What a primary term yields for each consumed token kind: numeric
/// literals typed by their text (float text kept, integers parsed with
/// overflow rejected), string literals and identifiers taken over,
/// qualified identifiers rejoined around a dot, NULL and the `*` wildcard
/// recognized, and every other token a parse error. A parenthesized
/// sub-expression is unconstrained here; its result is the inner parse.
pub open spec fn primary_token_result(tok: TokenModel, r: Result<Expr, ParseError>) -> bool {
    match tok {
        TokenModel::StringLiteral(s) => match r {
            Ok(Expr::Literal(Value::String(s2))) => s2@ == s,
            _ => false,
        },
        TokenModel::Identifier(id) => match r {
            Ok(Expr::Identifier(id2)) => id2@ == id,
            _ => false,
        },
        TokenModel::QualifiedIdentifier { qualifier, name } => match r {
            Ok(Expr::Identifier(j)) => j@ == qualifier + seq!['.'] + name,
            _ => false,
        },
        TokenModel::NumericLiteral(n) => if has_dot(n) {
            if is_float_text(n) {
                match r {
                    Ok(Expr::Literal(Value::Float(t))) => t@ == n,
                    _ => false,
                }
            } else {
                r is Err
            }
        } else {
            match spec_parse_i64(n) {
                Some(v) => match r {
                    Ok(Expr::Literal(Value::Integer(w))) => w == v,
                    _ => false,
                },
                None => r is Err,
            }
        },
        TokenModel::Keyword(k) => if upper_seq(k) == upper_seq("NULL"@) {
            r == Ok::<Expr, ParseError>(Expr::Literal(Value::Null))
        } else {
            r is Err
        },
        TokenModel::Punctuator(c) => if c == '(' {
            true
        } else if c == '*' {
            r == Ok::<Expr, ParseError>(Expr::Wildcard)
        } else {
            r is Err
        },
        TokenModel::Operator(_) => r is Err,
        TokenModel::DataType { .. } => r is Err,
    }
}

/// Whether the character sequence holds a dot.
fn text_has_dot(v: &Vec<char>) -> (r: bool)
    ensures
        r == has_dot(v@),
{
    let n: usize = v.len();
    let mut i: usize = 0;
    while i < n
        invariant
            0 <= i <= n,
            n == v@.len(),
            forall|j: int| 0 <= j < i ==> v@[j] != '.',
        decreases n - i,
    {
        if v[i] == '.' {
            return true;
        }
        i += 1;
    }
    false
}

impl Parser {
    /// A scalar expression, parsed from the loosest precedence tier.
    /// Nesting deeper than `MAX_EXPR_DEPTH` is rejected with a parse
    /// error.
    pub fn parse_expr(&mut self, depth: usize) -> (r: Result<Expr, ParseError>)
        requires
            old(self).wf(),
        ensures
            cursor_ok(*old(self), *final(self)),
            r is Ok ==> final(self).pos() > old(self).pos(),
            r is Ok <==> spec_expr(old(self).toks(), old(self).pos(), depth as int) is Some,
            r matches Ok(e) ==> spec_expr(old(self).toks(), old(self).pos(), depth as int)
                matches Some(t) && e@ == t.0 && final(self).pos() == t.1,
            depth > MAX_EXPR_DEPTH ==> (r matches Err(e) && e.token_position == old(self).pos()
                && final(self).pos() == old(self).pos() && e.message@ == super::spec_error_msg(
                "Expression nesting too deep"@,
                old(self).toks(),
                old(self).pos(),
            )),
            r matches Err(e) ==> deep_nesting_err(
                old(self).toks(),
                old(self).pos(),
                depth as int,
                e,
            ),
        decreases self.toks().len() - self.pos(), 8int,
    {
        if depth > MAX_EXPR_DEPTH {
            Err(self.get_parse_error("Expression nesting too deep"))
        } else {
            self.parse_logical_or(depth)
        }
    }

    /// OR expressions: left-associative folds of AND expressions.
    #[verifier::loop_isolation(false)]
    #[verifier::rlimit(100)]
    #[verifier::spinoff_prover]
    fn parse_logical_or(&mut self, depth: usize) -> (r: Result<Expr, ParseError>)
        requires
            old(self).wf(),
            depth <= MAX_EXPR_DEPTH,
        ensures
            cursor_ok(*old(self), *final(self)),
            r is Ok ==> final(self).pos() > old(self).pos(),
            r is Ok <==> spec_or(old(self).toks(), old(self).pos(), depth as int) is Some,
            r matches Ok(e) ==> spec_or(old(self).toks(), old(self).pos(), depth as int)
                matches Some(t) && e@ == t.0 && final(self).pos() == t.1,
            r matches Err(e) ==> deep_nesting_err(
                old(self).toks(),
                old(self).pos(),
                depth as int,
                e,
            ),
        decreases self.toks().len() - self.pos(), 7int,
    {
        let ghost toks = old(self).toks();
        let ghost pos0 = old(self).pos();
        let ghost d = depth as int;
        let mut expr = match self.parse_logical_and(depth) {
            Ok(e) => e,
            Err(e) => {
                return Err(e);
            },
        };
        proof {
            lemma_and_some_not_deep(toks, pos0, d);
        }
        loop
            invariant
                self.wf(),
                self.toks() == old(self).toks(),
                old(self).pos() < self.pos(),
                !opens_through(toks, pos0, depth_excess(d)),
                spec_or(toks, pos0, d) == spec_or_tail(toks, self.pos(), expr@, d),
            decreases self.toks().len() - self.pos(),
        {
            if !self.match_keyword("OR") {
                proof {
                    assert(spec_or_tail(toks, self.pos(), expr@, d) == Some((expr@, self.pos())));
                }
                break;
            }
            let right = match self.parse_logical_and(depth) {
                Ok(e) => e,
                Err(e) => {
                    return Err(e);
                },
            };
            let ghost acc0 = expr@;
            let mut expressions: Vec<Expr> = Vec::new();
            expressions.push(expr);
            expressions.push(right);
            proof {
                assert(exprs_view_from(expressions, 2) =~= Seq::<ExprModel>::empty());
                assert(exprs_view_from(expressions, 1) =~= seq![expr_view(expressions@[1])]);
                assert(exprs_view_from(expressions, 0) =~= seq![expr_view(expressions@[0])]
                    + exprs_view_from(expressions, 1));
                assert(exprs_view(expressions) =~= seq![acc0, right@]);
            }
            expr = Expr::LogicalOp { op: LogicalOperator::Or, expressions };
        }
        Ok(expr)
    }

    /// AND expressions: left-associative folds of NOT expressions.
    #[verifier::loop_isolation(false)]
    #[verifier::rlimit(100)]
    #[verifier::spinoff_prover]
    fn parse_logical_and(&mut self, depth: usize) -> (r: Result<Expr, ParseError>)
        requires
            old(self).wf(),
            depth <= MAX_EXPR_DEPTH,
        ensures
            cursor_ok(*old(self), *final(self)),
            r is Ok ==> final(self).pos() > old(self).pos(),
            r is Ok <==> spec_and(old(self).toks(), old(self).pos(), depth as int) is Some,
            r matches Ok(e) ==> spec_and(old(self).toks(), old(self).pos(), depth as int)
                matches Some(t) && e@ == t.0 && final(self).pos() == t.1,
            r matches Err(e) ==> deep_nesting_err(
                old(self).toks(),
                old(self).pos(),
                depth as int,
                e,
            ),
        decreases self.toks().len() - self.pos(), 6int,
    {
        let ghost toks = old(self).toks();
        let ghost pos0 = old(self).pos();
        let ghost d = depth as int;
        let mut expr = match self.parse_not(depth) {
            Ok(e) => e,
            Err(e) => {
                return Err(e);
            },
        };
        proof {
            lemma_not_some_not_deep(toks, pos0, d);
        }
        loop
            invariant
                self.wf(),
                self.toks() == old(self).toks(),
                old(self).pos() < self.pos(),
                !opens_through(toks, pos0, depth_excess(d)),
                spec_and(toks, pos0, d) == spec_and_tail(toks, self.pos(), expr@, d),
            decreases self.toks().len() - self.pos(),
        {
            if !self.match_keyword("AND") {
                proof {
                    assert(spec_and_tail(toks, self.pos(), expr@, d) == Some((expr@, self.pos())));
                }
                break;
            }
            let right = match self.parse_not(depth) {
                Ok(e) => e,
                Err(e) => {
                    return Err(e);
                },
            };
            let ghost acc0 = expr@;
            let mut expressions: Vec<Expr> = Vec::new();
            expressions.push(expr);
            expressions.push(right);
            proof {
                assert(exprs_view_from(expressions, 2) =~= Seq::<ExprModel>::empty());
                assert(exprs_view_from(expressions, 1) =~= seq![expr_view(expressions@[1])]);
                assert(exprs_view_from(expressions, 0) =~= seq![expr_view(expressions@[0])]
                    + exprs_view_from(expressions, 1));
                assert(exprs_view(expressions) =~= seq![acc0, right@]);
            }
            expr = Expr::LogicalOp { op: LogicalOperator::And, expressions };
        }
        Ok(expr)
    }

    /// An optional non-repeatable NOT prefix over a comparison.
    #[verifier::rlimit(100)]
    #[verifier::spinoff_prover]
    fn parse_not(&mut self, depth: usize) -> (r: Result<Expr, ParseError>)
        requires
            old(self).wf(),
            depth <= MAX_EXPR_DEPTH,
        ensures
            cursor_ok(*old(self), *final(self)),
            r is Ok ==> final(self).pos() > old(self).pos(),
            r is Ok <==> spec_not(old(self).toks(), old(self).pos(), depth as int) is Some,
            r matches Ok(e) ==> spec_not(old(self).toks(), old(self).pos(), depth as int)
                matches Some(t) && e@ == t.0 && final(self).pos() == t.1,
            r matches Err(e) ==> deep_nesting_err(
                old(self).toks(),
                old(self).pos(),
                depth as int,
                e,
            ),
        decreases self.toks().len() - self.pos(), 5int,
    {
        if self.match_keyword("NOT") {
            proof {
                if opens_through(
                    old(self).toks(),
                    old(self).pos(),
                    depth_excess(depth as int),
                ) {
                    assert(super::common::punct_tok_at(
                        old(self).toks(),
                        old(self).pos() + 0,
                        '(',
                    ));
                }
            }
            let expr = match self.parse_comparison(depth) {
                Ok(e) => e,
                Err(e) => {
                    return Err(e);
                },
            };
            let ghost inner0 = expr@;
            let mut expressions: Vec<Expr> = Vec::new();
            expressions.push(expr);
            proof {
                assert(exprs_view_from(expressions, 1) =~= Seq::<ExprModel>::empty());
                assert(exprs_view_from(expressions, 0) =~= seq![expr_view(expressions@[0])]
                    + exprs_view_from(expressions, 1));
                assert(exprs_view(expressions) =~= seq![inner0]);
            }
            return Ok(Expr::LogicalOp { op: LogicalOperator::Not, expressions });
        }
        self.parse_comparison(depth)
    }

    /// A comparison: at most one comparison operator between additive
    /// expressions; comparisons do not chain.
    #[verifier::rlimit(100)]
    #[verifier::spinoff_prover]
    fn parse_comparison(&mut self, depth: usize) -> (r: Result<Expr, ParseError>)
        requires
            old(self).wf(),
            depth <= MAX_EXPR_DEPTH,
        ensures
            cursor_ok(*old(self), *final(self)),
            r is Ok ==> final(self).pos() > old(self).pos(),
            r is Ok <==> spec_cmp(old(self).toks(), old(self).pos(), depth as int) is Some,
            r matches Ok(e) ==> spec_cmp(old(self).toks(), old(self).pos(), depth as int)
                matches Some(t) && e@ == t.0 && final(self).pos() == t.1,
            r matches Err(e) ==> deep_nesting_err(
                old(self).toks(),
                old(self).pos(),
                depth as int,
                e,
            ),
        decreases self.toks().len() - self.pos(), 4int,
    {
        let left = match self.parse_additive(depth) {
            Ok(e) => e,
            Err(e) => {
                return Err(e);
            },
        };
        proof {
            lemma_add_some_not_deep(old(self).toks(), old(self).pos(), depth as int);
        }
        if let Some(op) = self.match_comparison_operator() {
            let right = match self.parse_additive(depth) {
                Ok(e) => e,
                Err(e) => {
                    return Err(e);
                },
            };
            return Ok(Expr::BinaryOp { left: Box::new(left), op, right: Box::new(right) });
        }
        Ok(left)
    }

    /// Additions and subtractions, left-associative.
    #[verifier::loop_isolation(false)]
    #[verifier::rlimit(100)]
    #[verifier::spinoff_prover]
    fn parse_additive(&mut self, depth: usize) -> (r: Result<Expr, ParseError>)
        requires
            old(self).wf(),
            depth <= MAX_EXPR_DEPTH,
        ensures
            cursor_ok(*old(self), *final(self)),
            r is Ok ==> final(self).pos() > old(self).pos(),
            r is Ok <==> spec_add(old(self).toks(), old(self).pos(), depth as int) is Some,
            r matches Ok(e) ==> spec_add(old(self).toks(), old(self).pos(), depth as int)
                matches Some(t) && e@ == t.0 && final(self).pos() == t.1,
            r matches Err(e) ==> deep_nesting_err(
                old(self).toks(),
                old(self).pos(),
                depth as int,
                e,
            ),
        decreases self.toks().len() - self.pos(), 3int,
    {
        let ghost toks = old(self).toks();
        let ghost pos0 = old(self).pos();
        let ghost d = depth as int;
        let mut expr = match self.parse_multiplicative(depth) {
            Ok(e) => e,
            Err(e) => {
                return Err(e);
            },
        };
        proof {
            lemma_mul_some_not_deep(toks, pos0, d);
        }
        loop
            invariant
                self.wf(),
                self.toks() == old(self).toks(),
                old(self).pos() < self.pos(),
                !opens_through(toks, pos0, depth_excess(d)),
                spec_add(toks, pos0, d) == spec_add_tail(toks, self.pos(), expr@, d),
            decreases self.toks().len() - self.pos(),
        {
            let binary_op = if self.match_operator("+") {
                Some(BinaryOperator::Plus)
            } else if self.match_operator("-") {
                Some(BinaryOperator::Minus)
            } else {
                None
            };
            let op = match binary_op {
                Some(op) => op,
                None => {
                    proof {
                        assert(add_op_at(toks, self.pos()) is None);
                        assert(spec_add_tail(toks, self.pos(), expr@, d) == Some((expr@, self.pos())));
                    }
                    break;
                },
            };
            let right = match self.parse_multiplicative(depth) {
                Ok(e) => e,
                Err(e) => {
                    return Err(e);
                },
            };
            expr = Expr::BinaryOp { left: Box::new(expr), op, right: Box::new(right) };
        }
        Ok(expr)
    }

    /// Multiplications and divisions, left-associative.
    #[verifier::loop_isolation(false)]
    #[verifier::rlimit(100)]
    #[verifier::spinoff_prover]
    fn parse_multiplicative(&mut self, depth: usize) -> (r: Result<Expr, ParseError>)
        requires
            old(self).wf(),
            depth <= MAX_EXPR_DEPTH,
        ensures
            cursor_ok(*old(self), *final(self)),
            r is Ok ==> final(self).pos() > old(self).pos(),
            r is Ok <==> spec_mul(old(self).toks(), old(self).pos(), depth as int) is Some,
            r matches Ok(e) ==> spec_mul(old(self).toks(), old(self).pos(), depth as int)
                matches Some(t) && e@ == t.0 && final(self).pos() == t.1,
            r matches Err(e) ==> deep_nesting_err(
                old(self).toks(),
                old(self).pos(),
                depth as int,
                e,
            ),
        decreases self.toks().len() - self.pos(), 2int,
    {
        let ghost toks = old(self).toks();
        let ghost pos0 = old(self).pos();
        let ghost d = depth as int;
        let mut expr = match self.parse_unary(depth) {
            Ok(e) => e,
            Err(e) => {
                return Err(e);
            },
        };
        proof {
            lemma_unary_some_not_deep(toks, pos0, d);
        }
        loop
            invariant
                self.wf(),
                self.toks() == old(self).toks(),
                old(self).pos() < self.pos(),
                !opens_through(toks, pos0, depth_excess(d)),
                spec_mul(toks, pos0, d) == spec_mul_tail(toks, self.pos(), expr@, d),
            decreases self.toks().len() - self.pos(),
        {
            let binary_op = if self.match_operator("*") {
                Some(BinaryOperator::Multiply)
            } else if self.match_operator("/") {
                Some(BinaryOperator::Divide)
            } else {
                None
            };
            let op = match binary_op {
                Some(op) => op,
                None => {
                    proof {
                        assert(mul_op_at(toks, self.pos()) is None);
                        assert(spec_mul_tail(toks, self.pos(), expr@, d) == Some((expr@, self.pos())));
                    }
                    break;
                },
            };
            let right = match self.parse_unary(depth) {
                Ok(e) => e,
                Err(e) => {
                    return Err(e);
                },
            };
            expr = Expr::BinaryOp { left: Box::new(expr), op, right: Box::new(right) };
        }
        Ok(expr)
    }

    /// Unary prefix signs, right-recursive: `+` is dropped, `-` wraps the
    /// operand in a unary-minus node.
    #[verifier::rlimit(100)]
    #[verifier::spinoff_prover]
    fn parse_unary(&mut self, depth: usize) -> (r: Result<Expr, ParseError>)
        requires
            old(self).wf(),
            depth <= MAX_EXPR_DEPTH,
        ensures
            cursor_ok(*old(self), *final(self)),
            r is Ok ==> final(self).pos() > old(self).pos(),
            r is Ok <==> spec_unary(old(self).toks(), old(self).pos(), depth as int) is Some,
            r matches Ok(e) ==> spec_unary(old(self).toks(), old(self).pos(), depth as int)
                matches Some(t) && e@ == t.0 && final(self).pos() == t.1,
            r matches Err(e) ==> deep_nesting_err(
                old(self).toks(),
                old(self).pos(),
                depth as int,
                e,
            ),
        decreases self.toks().len() - self.pos(), 1int,
    {
        let sign = if self.match_operator("+") {
            Some(false)
        } else if self.match_operator("-") {
            Some(true)
        } else {
            None
        };
        match sign {
            Some(minus) => {
                proof {
                    if opens_through(
                        old(self).toks(),
                        old(self).pos(),
                        depth_excess(depth as int),
                    ) {
                        assert(super::common::punct_tok_at(
                            old(self).toks(),
                            old(self).pos() + 0,
                            '(',
                        ));
                    }
                }
                let operand = match self.parse_unary(depth) {
                    Ok(e) => e,
                    Err(e) => {
                        return Err(e);
                    },
                };
                if minus {
                    Ok(Expr::UnaryOp { op: UnaryOperator::Minus, expr: Box::new(operand) })
                } else {
                    Ok(operand)
                }
            },
            None => self.parse_primary(depth),
        }
    }

    /// A primary term: a literal, an identifier, a parenthesized
    /// sub-expression at one greater depth, NULL, or the `*` wildcard.
    /// Anything else is a parse error naming the unexpected token.
    #[verifier::rlimit(100)]
    #[verifier::spinoff_prover]
    fn parse_primary(&mut self, depth: usize) -> (r: Result<Expr, ParseError>)
        requires
            old(self).wf(),
            depth <= MAX_EXPR_DEPTH,
        ensures
            cursor_ok(*old(self), *final(self)),
            r is Ok ==> final(self).pos() > old(self).pos(),
            r is Ok <==> spec_primary(old(self).toks(), old(self).pos(), depth as int) is Some,
            r matches Ok(e) ==> spec_primary(old(self).toks(), old(self).pos(), depth as int)
                matches Some(t) && e@ == t.0 && final(self).pos() == t.1,
            r matches Err(e) ==> deep_nesting_err(
                old(self).toks(),
                old(self).pos(),
                depth as int,
                e,
            ),
            r matches Err(e) ==> ((num_tok_at(old(self).toks(), old(self).pos()) && !has_dot(
                num_text_at(old(self).toks(), old(self).pos()),
            )) ==> e.message@ == super::spec_error_msg(
                "Invalid integer: "@ + num_text_at(old(self).toks(), old(self).pos()),
                old(self).toks(),
                old(self).pos() + 1,
            )),
            r matches Err(e) ==> ((num_tok_at(old(self).toks(), old(self).pos()) && has_dot(
                num_text_at(old(self).toks(), old(self).pos()),
            )) ==> e.message@ == super::spec_error_msg(
                "Invalid float: "@ + num_text_at(old(self).toks(), old(self).pos()),
                old(self).toks(),
                old(self).pos() + 1,
            )),
        decreases self.toks().len() - self.pos(), 0int,
    {
        let ghost toks = old(self).toks();
        let ghost pos0 = old(self).pos();
        let ghost d = depth as int;
        proof {
            if opens_through(toks, pos0, depth_excess(d)) {
                assert(super::common::punct_tok_at(toks, pos0 + 0, '('));
            }
        }
        let c_token = match self.consume_token() {
            Some(t) => t,
            None => {
                return Err(self.get_parse_error("Expected primary expression, but found none"));
            },
        };
        match c_token {
            Token::NumericLiteral(n) => {
                let cs = str_to_chars(n.as_str());
                if text_has_dot(&cs) {
                    if is_float_literal(&cs) {
                        Ok(Expr::Literal(Value::Float(n)))
                    } else {
                        let mut msg = String::new();
                        msg.append("Invalid float: ");
                        msg.append(n.as_str());
                        Err(self.get_parse_error(msg.as_str()))
                    }
                } else {
                    match parse_i64_text(&cs) {
                        Some(i) => Ok(Expr::Literal(Value::Integer(i))),
                        None => {
                            let mut msg = String::new();
                            msg.append("Invalid integer: ");
                            msg.append(n.as_str());
                            Err(self.get_parse_error(msg.as_str()))
                        },
                    }
                }
            },
            Token::StringLiteral(s) => Ok(Expr::Literal(Value::String(s))),
            Token::Identifier(ident) => Ok(Expr::Identifier(ident)),
            Token::QualifiedIdentifier { qualifier, name } => {
                let mut joined = str_to_chars(qualifier.as_str());
                joined.push('.');
                let mut nc = str_to_chars(name.as_str());
                joined.append(&mut nc);
                proof {
                    assert(joined@ =~= qualifier@ + seq!['.'] + name@);
                }
                Ok(Expr::Identifier(chars_to_string(&joined)))
            },
            Token::Punctuator(c) => {
                if c == '(' {
                    let expr = match self.parse_expr(depth + 1) {
                        Ok(e) => e,
                        Err(e) => {
                            proof {
                                if opens_through(toks, pos0, depth_excess(d)) {
                                    assert forall|i: int|
                                        0 <= i < depth_excess(d + 1) implies #[trigger]
                                    super::common::punct_tok_at(toks, pos0 + 1 + i, '(') by {
                                        assert(super::common::punct_tok_at(
                                            toks,
                                            pos0 + (i + 1),
                                            '(',
                                        ));
                                    }
                                    assert(opens_through(toks, pos0 + 1, depth_excess(d + 1)));
                                }
                            }
                            return Err(e);
                        },
                    };
                    proof {
                        if opens_through(toks, pos0, depth_excess(d)) {
                            lemma_deep_parens_none(toks, pos0, d);
                        }
                    }
                    if !self.match_punctuator(')') {
                        return Err(self.get_parse_error("Expect ')' to close expression"));
                    }
                    Ok(expr)
                } else if c == '*' {
                    Ok(Expr::Wildcard)
                } else {
                    let mut msg = String::new();
                    msg.append("Unexpected token in primary expression: ");
                    let ft = self.format_token(&Token::Punctuator(c));
                    msg.append(ft.as_str());
                    Err(self.get_parse_error(msg.as_str()))
                }
            },
            Token::Keyword(k) => {
                if eq_upper_null(k.as_str()) {
                    Ok(Expr::Literal(Value::Null))
                } else {
                    let mut msg = String::new();
                    msg.append("Unexpected token in primary expression: ");
                    msg.append(k.as_str());
                    Err(self.get_parse_error(msg.as_str()))
                }
            },
            other => {
                let mut msg = String::new();
                msg.append("Unexpected token in primary expression: ");
                let ft = self.format_token(&other);
                msg.append(ft.as_str());
                Err(self.get_parse_error(msg.as_str()))
            },
        }
    }

    /// The comparison operator at the cursor, consumed exactly when one is
    /// there.
    fn match_comparison_operator(&mut self) -> (r: Option<BinaryOperator>)
        requires
            old(self).wf(),
        ensures
            final(self).toks() == old(self).toks(),
            final(self).wf(),
            r == comp_op_at(old(self).toks(), old(self).pos()),
            final(self).pos() == old(self).pos() + (if r is Some {
                1int
            } else {
                0int
            }),
    {
        let found: Option<BinaryOperator> = match self.peek() {
            Some(Token::Operator(op)) => {
                if str_eq(op.as_str(), "=") {
                    Some(BinaryOperator::Eq)
                } else if str_eq(op.as_str(), "!=") || str_eq(op.as_str(), "<>") {
                    Some(BinaryOperator::NotEq)
                } else if str_eq(op.as_str(), "<") {
                    Some(BinaryOperator::Lt)
                } else if str_eq(op.as_str(), "<=") {
                    Some(BinaryOperator::LtEq)
                } else if str_eq(op.as_str(), ">") {
                    Some(BinaryOperator::Gt)
                } else if str_eq(op.as_str(), ">=") {
                    Some(BinaryOperator::GtEq)
                } else {
                    None
                }
            },
            _ => None,
        };
        if found.is_some() {
            self.skip(1);
        }
        found
    }
}

/// Whether the keyword text is NULL, without regard to case.
fn eq_upper_null(k: &str) -> (r: bool)
    ensures
        r == (upper_seq(k@) == upper_seq("NULL"@)),
{
    super::eq_upper(k, "NULL")
}

} // verus!
