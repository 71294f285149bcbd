//! Scalar expressions and literal values.

use vstd::prelude::*;

verus! {

/// A scalar expression. Sub-expressions are exclusively owned by their
/// parent node: the tree is strict, with no sharing and no cycles.
#[derive(Debug, PartialEq)]
pub enum Expr {
    /// A column name, possibly in rejoined `qualifier.name` form.
    Identifier(String),
    /// The `*` wildcard.
    Wildcard,
    /// A literal value.
    Literal(Value),
    /// A binary operation such as `a = b` or `x + y`.
    BinaryOp { left: Box<Expr>, op: BinaryOperator, right: Box<Expr> },
    /// An IN list, e.g. `id IN (1, 2, 3)`; `negated` for NOT IN.
    In { expr: Box<Expr>, list: Vec<Expr>, negated: bool },
    /// A BETWEEN range, e.g. `age BETWEEN 18 AND 30`; `negated` for NOT
    /// BETWEEN.
    Between { expr: Box<Expr>, low: Box<Expr>, high: Box<Expr>, negated: bool },
    /// An IS NULL test; `negated` for IS NOT NULL.
    IsNull { expr: Box<Expr>, negated: bool },
    /// A function call such as COUNT(*) or SUM(price).
    FunctionCall { name: String, args: Vec<Expr> },
    /// A logical connective: two or more operands for AND and OR, exactly
    /// one for NOT.
    LogicalOp { op: LogicalOperator, expressions: Vec<Expr> },
    /// A unary prefix operation such as `-x`.
    UnaryOp { op: UnaryOperator, expr: Box<Expr> },
}

/// A binary operator.
#[derive(Debug, Clone, Copy, PartialEq)]
pub enum BinaryOperator {
    Eq,
    NotEq,
    Lt,
    LtEq,
    Gt,
    GtEq,
    Plus,
    Minus,
    Multiply,
    Divide,
    Like,
}

/// A unary prefix operator.
#[derive(Debug, Clone, Copy, PartialEq)]
pub enum UnaryOperator {
    Plus,
    Minus,
}

/// A logical connective.
#[derive(Debug, Clone, Copy, PartialEq)]
pub enum LogicalOperator {
    And,
    Or,
    Not,
}

/// A literal payload. A float literal keeps its validated text form
/// (digits, one dot, an optional sign), so that the tree carries exact
/// decimal text and a consumer chooses its own numeric representation.
#[allow(non_camel_case_types)]
#[derive(Debug, PartialEq)]
pub enum Value {
    String(String),
    Integer(i64),
    Float(String),
    Boolean(bool),
    Null,
    DEFAULT,
}

/// The mathematical model of a literal value: the same variants over
/// character sequences instead of heap strings.
pub enum ValueModel {
    String(Seq<char>),
    Integer(i64),
    Float(Seq<char>),
    Boolean(bool),
    Null,
    DEFAULT,
}

/// The mathematical model of an expression tree.
pub enum ExprModel {
    Identifier(Seq<char>),
    Wildcard,
    Literal(ValueModel),
    BinaryOp { left: Box<ExprModel>, op: BinaryOperator, right: Box<ExprModel> },
    In { expr: Box<ExprModel>, list: Seq<ExprModel>, negated: bool },
    Between { expr: Box<ExprModel>, low: Box<ExprModel>, high: Box<ExprModel>, negated: bool },
    IsNull { expr: Box<ExprModel>, negated: bool },
    FunctionCall { name: Seq<char>, args: Seq<ExprModel> },
    LogicalOp { op: LogicalOperator, expressions: Seq<ExprModel> },
    UnaryOp { op: UnaryOperator, expr: Box<ExprModel> },
}

/// The model of a literal value.
pub open spec fn value_view(v: Value) -> ValueModel {
    match v {
        Value::String(s) => ValueModel::String(s@),
        Value::Integer(i) => ValueModel::Integer(i),
        Value::Float(t) => ValueModel::Float(t@),
        Value::Boolean(b) => ValueModel::Boolean(b),
        Value::Null => ValueModel::Null,
        Value::DEFAULT => ValueModel::DEFAULT,
    }
}

/// The model of an expression tree.
pub open spec fn expr_view(e: Expr) -> ExprModel
    decreases e, 0int,
{
    match e {
        Expr::Identifier(s) => ExprModel::Identifier(s@),
        Expr::Wildcard => ExprModel::Wildcard,
        Expr::Literal(v) => ExprModel::Literal(value_view(v)),
        Expr::BinaryOp { left, op, right } => ExprModel::BinaryOp {
            left: Box::new(expr_view(*left)),
            op,
            right: Box::new(expr_view(*right)),
        },
        Expr::In { expr, list, negated } => ExprModel::In {
            expr: Box::new(expr_view(*expr)),
            list: exprs_view_from(e->In_list, 0),
            negated,
        },
        Expr::Between { expr, low, high, negated } => ExprModel::Between {
            expr: Box::new(expr_view(*expr)),
            low: Box::new(expr_view(*low)),
            high: Box::new(expr_view(*high)),
            negated,
        },
        Expr::IsNull { expr, negated } => ExprModel::IsNull {
            expr: Box::new(expr_view(*expr)),
            negated,
        },
        Expr::FunctionCall { name, args } => ExprModel::FunctionCall {
            name: name@,
            args: exprs_view_from(e->FunctionCall_args, 0),
        },
        Expr::LogicalOp { op, expressions } => ExprModel::LogicalOp {
            op,
            expressions: exprs_view_from(e->LogicalOp_expressions, 0),
        },
        Expr::UnaryOp { op, expr } => ExprModel::UnaryOp { op, expr: Box::new(expr_view(*expr)) },
    }
}

/// The models of an expression vector's elements from index `i` on.
pub open spec fn exprs_view_from(v: Vec<Expr>, i: int) -> Seq<ExprModel>
    decreases v, v@.len() - i,
    via exprs_view_decreases
{
    if i < 0 || i >= v@.len() {
        Seq::empty()
    } else {
        seq![expr_view(v@[i])] + exprs_view_from(v, i + 1)
    }
}

/// A vector's element stands below the vector in the termination order.
#[via_fn]
proof fn exprs_view_decreases(v: Vec<Expr>, i: int) {
    broadcast use vstd::std_specs::vec::axiom_vec_decreases_to_view;
    broadcast use vstd::seq::axiom_seq_index_decreases;

    if 0 <= i < v@.len() {
        assert(decreases_to!(v => v@));
        assert(decreases_to!(v@ => v@[i]));
    }
}

/// The model of an expression vector.
pub open spec fn exprs_view(v: Vec<Expr>) -> Seq<ExprModel> {
    exprs_view_from(v, 0)
}

impl View for Expr {
    type V = ExprModel;

    open spec fn view(&self) -> ExprModel {
        expr_view(*self)
    }
}

impl Clone for Value {
    /// A clone is equal to the original.
    fn clone(&self) -> (r: Self)
        ensures
            r == *self,
    {
        match self {
            Value::String(s) => Value::String(s.clone()),
            Value::Integer(i) => Value::Integer(*i),
            Value::Float(t) => Value::Float(t.clone()),
            Value::Boolean(b) => Value::Boolean(*b),
            Value::Null => Value::Null,
            Value::DEFAULT => Value::DEFAULT,
        }
    }
}

/// Two expression vectors whose elements carry the same models have the
/// same model sequence.
proof fn lemma_exprs_view_pointwise(v1: Vec<Expr>, v2: Vec<Expr>, i: int)
    requires
        0 <= i,
        v1@.len() == v2@.len(),
        forall|j: int| 0 <= j < v1@.len() ==> expr_view(v1@[j]) == expr_view(#[trigger] v2@[j]),
    ensures
        exprs_view_from(v1, i) == exprs_view_from(v2, i),
    decreases v1@.len() - i,
{
    if i < v1@.len() {
        lemma_exprs_view_pointwise(v1, v2, i + 1);
    }
}

/// A clone of an expression vector: each element carries its original's
/// model.
fn clone_exprs(v: &Vec<Expr>) -> (r: Vec<Expr>)
    ensures
        r@.len() == v@.len(),
        forall|j: int| 0 <= j < v@.len() ==> expr_view(r@[j]) == expr_view(#[trigger] v@[j]),
    decreases v,
{
    let n: usize = v.len();
    let mut out: Vec<Expr> = Vec::new();
    let mut i: usize = 0;
    while i < n
        invariant
            0 <= i <= n,
            n == v@.len(),
            out@.len() == i,
            forall|j: int| 0 <= j < i ==> expr_view(out@[j]) == expr_view(#[trigger] v@[j]),
        decreases n - i,
    {
        proof {
            broadcast use vstd::std_specs::vec::axiom_vec_decreases_to_view;
            broadcast use vstd::seq::axiom_seq_index_decreases;

            assert(decreases_to!(*v => v@));
            assert(decreases_to!(v@ => v@[i as int]));
        }
        out.push(v[i].clone());
        i += 1;
    }
    out
}

impl Clone for Expr {
    /// A clone carries the same model as the original.
    fn clone(&self) -> (r: Self)
        ensures
            r@ == self@,
        decreases self,
    {
        match self {
            Expr::Identifier(s) => Expr::Identifier(s.clone()),
            Expr::Wildcard => Expr::Wildcard,
            Expr::Literal(v) => Expr::Literal(v.clone()),
            Expr::BinaryOp { left, op, right } => Expr::BinaryOp {
                left: Box::new((**left).clone()),
                op: *op,
                right: Box::new((**right).clone()),
            },
            Expr::In { expr, list, negated } => {
                let cloned = clone_exprs(list);
                proof {
                    lemma_exprs_view_pointwise(cloned, *list, 0);
                }
                Expr::In { expr: Box::new((**expr).clone()), list: cloned, negated: *negated }
            },
            Expr::Between { expr, low, high, negated } => Expr::Between {
                expr: Box::new((**expr).clone()),
                low: Box::new((**low).clone()),
                high: Box::new((**high).clone()),
                negated: *negated,
            },
            Expr::IsNull { expr, negated } => Expr::IsNull {
                expr: Box::new((**expr).clone()),
                negated: *negated,
            },
            Expr::FunctionCall { name, args } => {
                let cloned = clone_exprs(args);
                proof {
                    lemma_exprs_view_pointwise(cloned, *args, 0);
                }
                Expr::FunctionCall { name: name.clone(), args: cloned }
            },
            Expr::LogicalOp { op, expressions } => {
                let cloned = clone_exprs(expressions);
                proof {
                    lemma_exprs_view_pointwise(cloned, *expressions, 0);
                }
                Expr::LogicalOp { op: *op, expressions: cloned }
            },
            Expr::UnaryOp { op, expr } => Expr::UnaryOp {
                op: *op,
                expr: Box::new((**expr).clone()),
            },
        }
    }
}

/// One ORDER BY entry: an expression and its direction, ascending unless
/// DESC was given.
#[derive(Debug, Clone, PartialEq)]
pub struct OrderByExpr {
    pub expr: Expr,
    pub asc: bool,
}

/// The model of an ORDER BY entry: the expression and the ascending flag.
pub open spec fn order_by_view(o: OrderByExpr) -> (ExprModel, bool) {
    (expr_view(o.expr), o.asc)
}

/// A LIMIT clause: the row bound and an optional OFFSET.
#[derive(Debug, Clone, PartialEq)]
pub struct LimitClause {
    pub limit: u64,
    pub offset: Option<u64>,
}

} // verus!
