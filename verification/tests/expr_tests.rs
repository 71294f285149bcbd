use sqlfront::ast::expr::{BinaryOperator, Expr, LogicalOperator, UnaryOperator, Value};
use sqlfront::token::Token;
use sqlfront::Parser;

fn parse_one_expr(sql: &str) -> Result<Expr, sqlfront::ParseError> {
    let mut parser = Parser::new_from_sql(sql);
    parser.parse_expr(0)
}

#[test]
fn test_precedence_mul_over_add() {
    let expr = parse_one_expr("1 + 2 * 3").unwrap();
    let expect = Expr::BinaryOp {
        left: Box::new(Expr::Literal(Value::Integer(1))),
        op: BinaryOperator::Plus,
        right: Box::new(Expr::BinaryOp {
            left: Box::new(Expr::Literal(Value::Integer(2))),
            op: BinaryOperator::Multiply,
            right: Box::new(Expr::Literal(Value::Integer(3))),
        }),
    };
    assert_eq!(expr, expect);
}

#[test]
fn test_precedence_and_over_or() {
    let expr = parse_one_expr("a OR b AND c").unwrap();
    let expect = Expr::LogicalOp {
        op: LogicalOperator::Or,
        expressions: vec![
            Expr::Identifier("a".to_string()),
            Expr::LogicalOp {
                op: LogicalOperator::And,
                expressions: vec![
                    Expr::Identifier("b".to_string()),
                    Expr::Identifier("c".to_string()),
                ],
            },
        ],
    };
    assert_eq!(expr, expect);
}

#[test]
fn test_depth_guard() {
    // More than one hundred nested parentheses fail with a nesting error,
    // not a crash.
    let deep = format!("{}1{}", "(".repeat(120), ")".repeat(120));
    let err = parse_one_expr(&deep).unwrap_err();
    assert!(err.message.contains("Expression nesting too deep"));
    // At a tolerable depth the same shape parses.
    let shallow = format!("{}1{}", "(".repeat(40), ")".repeat(40));
    let expr = parse_one_expr(&shallow).unwrap();
    assert_eq!(expr, Expr::Literal(Value::Integer(1)));
}

#[test]
fn test_unary_signs() {
    let expr = parse_one_expr("-5").unwrap();
    assert_eq!(
        expr,
        Expr::UnaryOp {
            op: UnaryOperator::Minus,
            expr: Box::new(Expr::Literal(Value::Integer(5))),
        }
    );
    let expr = parse_one_expr("+5").unwrap();
    assert_eq!(expr, Expr::Literal(Value::Integer(5)));
}

#[test]
fn test_comparison_and_not() {
    let expr = parse_one_expr("NOT a <= 3").unwrap();
    assert_eq!(
        expr,
        Expr::LogicalOp {
            op: LogicalOperator::Not,
            expressions: vec![Expr::BinaryOp {
                left: Box::new(Expr::Identifier("a".to_string())),
                op: BinaryOperator::LtEq,
                right: Box::new(Expr::Literal(Value::Integer(3))),
            }],
        }
    );
}

#[test]
fn test_null_and_wildcard_primaries() {
    assert_eq!(parse_one_expr("NULL").unwrap(), Expr::Literal(Value::Null));
    // A lone `*` from the tokenizer is an operator token and no primary;
    // the wildcard primary stands for a punctuator-star token sequence.
    assert!(parse_one_expr("*").is_err());
    let mut parser = Parser::new(vec![Token::Punctuator('*')]);
    assert_eq!(parser.parse_expr(0).unwrap(), Expr::Wildcard);
}

#[test]
fn test_qualified_identifier_rejoined() {
    let expr = parse_one_expr("e.salary > 100000").unwrap();
    assert_eq!(
        expr,
        Expr::BinaryOp {
            left: Box::new(Expr::Identifier("e.salary".to_string())),
            op: BinaryOperator::Gt,
            right: Box::new(Expr::Literal(Value::Integer(100000))),
        }
    );
}

#[test]
fn test_float_literal_kept_as_text() {
    let expr = parse_one_expr("999.99").unwrap();
    assert_eq!(expr, Expr::Literal(Value::Float("999.99".to_string())));
}

#[test]
fn test_invalid_float_rejected() {
    let mut parser = Parser::new(vec![Token::NumericLiteral("1.2.3".to_string())]);
    let err = parser.parse_expr(0).unwrap_err();
    assert!(err.message.contains("Invalid float: 1.2.3"));
}

#[test]
fn test_invalid_integer_rejected() {
    let mut parser = Parser::new(vec![Token::NumericLiteral("99999999999999999999".to_string())]);
    let err = parser.parse_expr(0).unwrap_err();
    assert!(err.message.contains("Invalid integer: 99999999999999999999"));
}

#[test]
fn test_missing_close_paren_rejected() {
    let err = parse_one_expr("(1 + 2").unwrap_err();
    assert!(err.message.contains("Expect ')'"));
}

#[test]
fn test_empty_input_rejected() {
    let err = parse_one_expr("").unwrap_err();
    assert!(err.message.contains("Expected primary expression"));
}

#[test]
fn test_unexpected_token_rejected() {
    let err = parse_one_expr(", 1").unwrap_err();
    assert!(err.message.contains("Unexpected token in primary expression"));
}

#[test]
fn test_cursor_primitives() {
    let mut parser = Parser::new(vec![
        Token::Keyword("SELECT".to_string()),
        Token::Operator("=".to_string()),
        Token::Punctuator(','),
    ]);
    assert!(parser.has_more());
    assert!(parser.is_keyword("select"));
    assert!(parser.match_keyword("Select"));
    assert!(!parser.match_keyword("FROM"));
    assert!(parser.is_operator("="));
    assert!(parser.match_operator("="));
    assert!(parser.is_punctuator(','));
    parser.back();
    assert!(parser.match_operator("="));
    assert!(parser.match_punctuator(','));
    assert!(!parser.has_more());
    assert_eq!(parser.consume_token(), None);
}
