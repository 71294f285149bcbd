//! The specification of the expression grammar.
//!
//! These spec functions define, over the token sequence, exactly what the
//! precedence-climbing parser returns: for each tier a function from a
//! position to the parsed model tree and the position after it, or absence
//! when the grammar does not match there. Left-associative tiers are
//! written as a head parse followed by a fold (`.._tail`); each fold
//! recurses only when the operand parse advanced, which the verified
//! parser shows it always does.

use vstd::prelude::*;
use super::common::{kw_tok_at, op_tok_at, punct_tok_at};
use super::expr::{comp_op_at, has_dot, MAX_EXPR_DEPTH};
use crate::ast::expr::{BinaryOperator, ExprModel, LogicalOperator, UnaryOperator, ValueModel};
use crate::chars::upper_seq;
use crate::numeric::{is_float_text, spec_parse_i64};
use crate::token::{Token, TokenModel};

verus! {

/// A whole expression at position `p`, at nesting depth `d`: rejected past
/// the depth bound, otherwise the loosest tier.
pub open spec fn spec_expr(toks: Seq<Token>, p: int, d: int) -> Option<(ExprModel, int)>
    decreases toks.len() - p, 8int,
    when 0 <= p
{
    if d > MAX_EXPR_DEPTH as int {
        None
    } else {
        spec_or(toks, p, d)
    }
}

/// The OR tier: a left-associative fold of AND expressions.
pub open spec fn spec_or(toks: Seq<Token>, p: int, d: int) -> Option<(ExprModel, int)>
    decreases toks.len() - p, 7int,
    when 0 <= p
{
    match spec_and(toks, p, d) {
        Some(t) => if p < t.1 && t.1 <= toks.len() {
            spec_or_tail(toks, t.1, t.0, d)
        } else {
            // Unreachable: a successful parse advances within bounds.
            None
        },
        None => None,
    }
}

/// The fold of the OR tier: while the OR keyword stands at the cursor,
/// another AND expression is folded in on the left.
pub open spec fn spec_or_tail(toks: Seq<Token>, p: int, acc: ExprModel, d: int) -> Option<
    (ExprModel, int),
>
    decreases toks.len() - p, 7int,
    when 0 <= p
{
    if kw_tok_at(toks, p, "OR"@) {
        match spec_and(toks, p + 1, d) {
            Some(t) => if p < t.1 && t.1 <= toks.len() {
                spec_or_tail(
                    toks,
                    t.1,
                    ExprModel::LogicalOp { op: LogicalOperator::Or, expressions: seq![acc, t.0] },
                    d,
                )
            } else {
                // Unreachable: a successful operand parse always advances.
                None
            },
            None => None,
        }
    } else {
        Some((acc, p))
    }
}

/// The AND tier: a left-associative fold of NOT expressions.
pub open spec fn spec_and(toks: Seq<Token>, p: int, d: int) -> Option<(ExprModel, int)>
    decreases toks.len() - p, 6int,
    when 0 <= p
{
    match spec_not(toks, p, d) {
        Some(t) => if p < t.1 && t.1 <= toks.len() {
            spec_and_tail(toks, t.1, t.0, d)
        } else {
            // Unreachable: a successful parse advances within bounds.
            None
        },
        None => None,
    }
}

/// The fold of the AND tier.
pub open spec fn spec_and_tail(toks: Seq<Token>, p: int, acc: ExprModel, d: int) -> Option<
    (ExprModel, int),
>
    decreases toks.len() - p, 6int,
    when 0 <= p
{
    if kw_tok_at(toks, p, "AND"@) {
        match spec_not(toks, p + 1, d) {
            Some(t) => if p < t.1 && t.1 <= toks.len() {
                spec_and_tail(
                    toks,
                    t.1,
                    ExprModel::LogicalOp { op: LogicalOperator::And, expressions: seq![acc, t.0] },
                    d,
                )
            } else {
                // Unreachable: a successful operand parse always advances.
                None
            },
            None => None,
        }
    } else {
        Some((acc, p))
    }
}

/// The NOT tier: an optional, non-repeatable NOT prefix over a comparison.
pub open spec fn spec_not(toks: Seq<Token>, p: int, d: int) -> Option<(ExprModel, int)>
    decreases toks.len() - p, 5int,
    when 0 <= p
{
    if kw_tok_at(toks, p, "NOT"@) {
        match spec_cmp(toks, p + 1, d) {
            Some(t) => Some(
                (ExprModel::LogicalOp { op: LogicalOperator::Not, expressions: seq![t.0] }, t.1),
            ),
            None => None,
        }
    } else {
        spec_cmp(toks, p, d)
    }
}

/// The comparison tier: at most one comparison operator between additive
/// expressions; comparisons do not chain.
pub open spec fn spec_cmp(toks: Seq<Token>, p: int, d: int) -> Option<(ExprModel, int)>
    decreases toks.len() - p, 4int,
    when 0 <= p
{
    match spec_add(toks, p, d) {
        Some(l) => match comp_op_at(toks, l.1) {
            Some(op) => if l.1 < p {
                // Unreachable: a successful parse advances within bounds.
                None
            } else {
                match spec_add(toks, l.1 + 1, d) {
                    Some(r) => Some(
                        (
                            ExprModel::BinaryOp {
                                left: Box::new(l.0),
                                op,
                                right: Box::new(r.0),
                            },
                            r.1,
                        ),
                    ),
                    None => None,
                }
            },
            None => Some(l),
        },
        None => None,
    }
}

/// The additive tier: a left-associative fold of multiplicative
/// expressions under `+` and `-`.
pub open spec fn spec_add(toks: Seq<Token>, p: int, d: int) -> Option<(ExprModel, int)>
    decreases toks.len() - p, 3int,
    when 0 <= p
{
    match spec_mul(toks, p, d) {
        Some(t) => if p < t.1 && t.1 <= toks.len() {
            spec_add_tail(toks, t.1, t.0, d)
        } else {
            // Unreachable: a successful parse advances within bounds.
            None
        },
        None => None,
    }
}

/// The additive operator at index `p`, if any.
pub open spec fn add_op_at(toks: Seq<Token>, p: int) -> Option<BinaryOperator> {
    if op_tok_at(toks, p, "+"@) {
        Some(BinaryOperator::Plus)
    } else if op_tok_at(toks, p, "-"@) {
        Some(BinaryOperator::Minus)
    } else {
        None
    }
}

/// The fold of the additive tier.
pub open spec fn spec_add_tail(toks: Seq<Token>, p: int, acc: ExprModel, d: int) -> Option<
    (ExprModel, int),
>
    decreases toks.len() - p, 3int,
    when 0 <= p
{
    match add_op_at(toks, p) {
        Some(op) => match spec_mul(toks, p + 1, d) {
            Some(t) => if p < t.1 && t.1 <= toks.len() {
                spec_add_tail(
                    toks,
                    t.1,
                    ExprModel::BinaryOp { left: Box::new(acc), op, right: Box::new(t.0) },
                    d,
                )
            } else {
                // Unreachable: a successful operand parse always advances.
                None
            },
            None => None,
        },
        None => Some((acc, p)),
    }
}

/// The multiplicative tier: a left-associative fold of unary expressions
/// under `*` and `/`.
pub open spec fn spec_mul(toks: Seq<Token>, p: int, d: int) -> Option<(ExprModel, int)>
    decreases toks.len() - p, 2int,
    when 0 <= p
{
    match spec_unary(toks, p, d) {
        Some(t) => if p < t.1 && t.1 <= toks.len() {
            spec_mul_tail(toks, t.1, t.0, d)
        } else {
            // Unreachable: a successful parse advances within bounds.
            None
        },
        None => None,
    }
}

/// The multiplicative operator at index `p`, if any.
pub open spec fn mul_op_at(toks: Seq<Token>, p: int) -> Option<BinaryOperator> {
    if op_tok_at(toks, p, "*"@) {
        Some(BinaryOperator::Multiply)
    } else if op_tok_at(toks, p, "/"@) {
        Some(BinaryOperator::Divide)
    } else {
        None
    }
}

/// The fold of the multiplicative tier.
pub open spec fn spec_mul_tail(toks: Seq<Token>, p: int, acc: ExprModel, d: int) -> Option<
    (ExprModel, int),
>
    decreases toks.len() - p, 2int,
    when 0 <= p
{
    match mul_op_at(toks, p) {
        Some(op) => match spec_unary(toks, p + 1, d) {
            Some(t) => if p < t.1 && t.1 <= toks.len() {
                spec_mul_tail(
                    toks,
                    t.1,
                    ExprModel::BinaryOp { left: Box::new(acc), op, right: Box::new(t.0) },
                    d,
                )
            } else {
                // Unreachable: a successful operand parse always advances.
                None
            },
            None => None,
        },
        None => Some((acc, p)),
    }
}

/// The unary tier: right-recursive prefix signs; `+` is dropped, `-`
/// wraps the operand in a unary-minus node.
pub open spec fn spec_unary(toks: Seq<Token>, p: int, d: int) -> Option<(ExprModel, int)>
    decreases toks.len() - p, 1int,
    when 0 <= p
{
    if op_tok_at(toks, p, "+"@) {
        spec_unary(toks, p + 1, d)
    } else if op_tok_at(toks, p, "-"@) {
        match spec_unary(toks, p + 1, d) {
            Some(t) => Some(
                (ExprModel::UnaryOp { op: UnaryOperator::Minus, expr: Box::new(t.0) }, t.1),
            ),
            None => None,
        }
    } else {
        spec_primary(toks, p, d)
    }
}

/// The primary tier: literals (floats kept as text, integers parsed with
/// overflow rejected), identifiers, rejoined qualified identifiers, NULL,
/// the `*` wildcard, and parenthesized sub-expressions at one greater
/// depth. Every other token fails.
pub open spec fn spec_primary(toks: Seq<Token>, p: int, d: int) -> Option<(ExprModel, int)>
    decreases toks.len() - p, 0int,
    when 0 <= p
{
    if p >= toks.len() {
        None
    } else {
        match toks[p]@ {
            TokenModel::NumericLiteral(n) => if has_dot(n) {
                if is_float_text(n) {
                    Some((ExprModel::Literal(ValueModel::Float(n)), p + 1))
                } else {
                    None
                }
            } else {
                match spec_parse_i64(n) {
                    Some(v) => Some((ExprModel::Literal(ValueModel::Integer(v)), p + 1)),
                    None => None,
                }
            },
            TokenModel::StringLiteral(s) => Some((ExprModel::Literal(ValueModel::String(s)), p + 1)),
            TokenModel::Identifier(id) => Some((ExprModel::Identifier(id), p + 1)),
            TokenModel::QualifiedIdentifier { qualifier, name } => Some(
                (ExprModel::Identifier(qualifier + seq!['.'] + name), p + 1),
            ),
            TokenModel::Keyword(k) => if upper_seq(k) == upper_seq("NULL"@) {
                Some((ExprModel::Literal(ValueModel::Null), p + 1))
            } else {
                None
            },
            TokenModel::Punctuator(c) => if c == '(' {
                match spec_expr(toks, p + 1, d + 1) {
                    Some(t) => if punct_tok_at(toks, t.1, ')') {
                        Some((t.0, t.1 + 1))
                    } else {
                        None
                    },
                    None => None,
                }
            } else if c == '*' {
                Some((ExprModel::Wildcard, p + 1))
            } else {
                None
            },
            TokenModel::Operator(_) => None,
            TokenModel::DataType { .. } => None,
        }
    }
}

/// How many more levels of nesting the depth bound admits from depth `d`:
/// entering that many parenthesized sub-expressions exceeds the bound.
pub open spec fn depth_excess(d: int) -> int {
    if d > MAX_EXPR_DEPTH as int {
        0
    } else {
        MAX_EXPR_DEPTH as int + 1 - d
    }
}

/// Whether `k` opening parentheses stand in a row from position `p`.
pub open spec fn opens_through(toks: Seq<Token>, p: int, k: int) -> bool {
    forall|i: int| 0 <= i < k ==> #[trigger] punct_tok_at(toks, p + i, '(')
}

/// What a failed expression parse guarantees on input that nests past the
/// depth bound: the error is the nesting-depth error, raised where the
/// bound was exceeded.
pub open spec fn deep_nesting_err(
    toks: Seq<Token>,
    p: int,
    d: int,
    e: crate::parser::ParseError,
) -> bool {
    opens_through(toks, p, depth_excess(d)) ==> (e.token_position == p + depth_excess(d)
        && e.message@ == crate::parser::spec_error_msg(
        "Expression nesting too deep"@,
        toks,
        p + depth_excess(d),
    ))
}

/// Input that nests past the depth bound matches no tier of the expression
/// grammar.
pub proof fn lemma_deep_parens_none(toks: Seq<Token>, p: int, d: int)
    requires
        0 <= p,
        d <= MAX_EXPR_DEPTH as int,
        opens_through(toks, p, depth_excess(d)),
    ensures
        spec_expr(toks, p + 1, d + 1) is None,
        spec_primary(toks, p, d) is None,
        spec_unary(toks, p, d) is None,
        spec_mul(toks, p, d) is None,
        spec_add(toks, p, d) is None,
        spec_cmp(toks, p, d) is None,
        spec_not(toks, p, d) is None,
        spec_and(toks, p, d) is None,
        spec_or(toks, p, d) is None,
        spec_expr(toks, p, d) is None,
    decreases depth_excess(d),
{
    let k = depth_excess(d);
    assert(k >= 1);
    assert(punct_tok_at(toks, p + 0, '('));
    assert(punct_tok_at(toks, p, '('));
    if d + 1 > MAX_EXPR_DEPTH as int {
        assert(spec_expr(toks, p + 1, d + 1) is None);
    } else {
        assert forall|i: int| 0 <= i < depth_excess(d + 1) implies #[trigger] punct_tok_at(
            toks,
            p + 1 + i,
            '(',
        ) by {
            assert(punct_tok_at(toks, p + (i + 1), '('));
        }
        lemma_deep_parens_none(toks, p + 1, d + 1);
    }
    assert(spec_primary(toks, p, d) is None);
}

/// A successful AND-tier parse rules out input that nests past the bound.
pub proof fn lemma_and_some_not_deep(toks: Seq<Token>, p: int, d: int)
    requires
        0 <= p,
        d <= MAX_EXPR_DEPTH as int,
        spec_and(toks, p, d) is Some,
    ensures
        !opens_through(toks, p, depth_excess(d)),
{
    if opens_through(toks, p, depth_excess(d)) {
        lemma_deep_parens_none(toks, p, d);
    }
}

/// A successful NOT-tier parse rules out input that nests past the bound.
pub proof fn lemma_not_some_not_deep(toks: Seq<Token>, p: int, d: int)
    requires
        0 <= p,
        d <= MAX_EXPR_DEPTH as int,
        spec_not(toks, p, d) is Some,
    ensures
        !opens_through(toks, p, depth_excess(d)),
{
    if opens_through(toks, p, depth_excess(d)) {
        lemma_deep_parens_none(toks, p, d);
    }
}

/// A successful multiplicative-tier parse rules out input that nests past
/// the bound.
pub proof fn lemma_mul_some_not_deep(toks: Seq<Token>, p: int, d: int)
    requires
        0 <= p,
        d <= MAX_EXPR_DEPTH as int,
        spec_mul(toks, p, d) is Some,
    ensures
        !opens_through(toks, p, depth_excess(d)),
{
    if opens_through(toks, p, depth_excess(d)) {
        lemma_deep_parens_none(toks, p, d);
    }
}

/// A successful unary-tier parse rules out input that nests past the
/// bound.
pub proof fn lemma_unary_some_not_deep(toks: Seq<Token>, p: int, d: int)
    requires
        0 <= p,
        d <= MAX_EXPR_DEPTH as int,
        spec_unary(toks, p, d) is Some,
    ensures
        !opens_through(toks, p, depth_excess(d)),
{
    if opens_through(toks, p, depth_excess(d)) {
        lemma_deep_parens_none(toks, p, d);
    }
}

/// A successful additive-tier parse rules out input that nests past the
/// bound.
pub proof fn lemma_add_some_not_deep(toks: Seq<Token>, p: int, d: int)
    requires
        0 <= p,
        d <= MAX_EXPR_DEPTH as int,
        spec_add(toks, p, d) is Some,
    ensures
        !opens_through(toks, p, depth_excess(d)),
{
    if opens_through(toks, p, depth_excess(d)) {
        lemma_deep_parens_none(toks, p, d);
    }
}

} // verus!
