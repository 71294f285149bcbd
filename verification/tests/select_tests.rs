use sqlfront::ast::common::TableReference;
use sqlfront::ast::expr::{BinaryOperator, Expr, LimitClause, OrderByExpr, Value};
use sqlfront::ast::select::{SelectColumn, SelectStatement};
use sqlfront::token::tokenize;
use sqlfront::Parser;

#[test]
fn test_select_parser() {
    let sql =
        "SELECT id, name AS user_name FROM users WHERE age >= 18 ORDER BY name DESC, age  LIMIT 10";
    let tokens = tokenize(sql);
    let mut parser = Parser::new(tokens);
    let result = parser.parse_select_statement();
    if let Ok(select) = result {
        let expect = SelectStatement {
            columns: vec![
                SelectColumn::Column { name: "id".to_string(), alias: None },
                SelectColumn::Column {
                    name: "name".to_string(),
                    alias: Some("user_name".to_string()),
                },
            ],
            distinct: false,
            from: TableReference { name: "users".to_string(), alias: None },
            where_clause: Some(Expr::BinaryOp {
                left: Box::new(Expr::Identifier("age".to_string())),
                op: BinaryOperator::GtEq,
                right: Box::new(Expr::Literal(Value::Integer(18))),
            }),
            group_by: None,
            having: None,
            order_by: Some(vec![
                OrderByExpr { expr: Expr::Identifier("name".to_string()), asc: false },
                OrderByExpr { expr: Expr::Identifier("age".to_string()), asc: true },
            ]),
            limit: Some(LimitClause { limit: 10, offset: None }),
        };
        assert_eq!(select, expect);
    } else {
        println!("Error: {:?}", result.unwrap_err());
    }
}

#[test]
fn test_select_canonical_order_succeeds() {
    let sql = "SELECT DISTINCT a, b FROM t WHERE a = 1 GROUP BY a, b HAVING a > 0 ORDER BY b LIMIT 5 OFFSET 2";
    let mut parser = Parser::new_from_sql(sql);
    let result = parser.parse_select_statement();
    let select = result.expect("canonical clause order must parse");
    assert!(select.distinct);
    assert!(select.where_clause.is_some());
    assert_eq!(select.group_by.as_ref().map(|g| g.len()), Some(2));
    assert!(select.having.is_some());
    assert_eq!(select.order_by.as_ref().map(|o| o.len()), Some(1));
    assert_eq!(select.limit, Some(LimitClause { limit: 5, offset: Some(2) }));
}

fn select_clause_label(idx: u8) -> &'static str {
    match idx {
        1 => "WHERE",
        2 => "GROUP BY",
        3 => "HAVING",
        4 => "ORDER BY",
        5 => "LIMIT",
        _ => "FROM",
    }
}

#[test]
fn test_clause_out_of_order_rejected() {
    // A clause whose ordinal does not pass the tracked maximum — WHERE
    // after ORDER BY — is rejected, and the error cites both clauses.
    let parser = Parser::new(Vec::new());
    let result = parser.move_current_idx(4, 1, select_clause_label);
    let err = result.expect_err("a backward clause must be rejected");
    assert!(err.message.contains("WHERE"));
    assert!(err.message.contains("ORDER BY"));
    assert!(err.message.contains("clause out of order"));
    // A forward clause is accepted and advances the tracked maximum.
    let ok = parser.move_current_idx(1, 4, select_clause_label);
    assert_eq!(ok.unwrap(), 4);
    // Repeating a clause is rejected: the order is only forward.
    let repeated = parser.move_current_idx(4, 4, select_clause_label);
    assert!(repeated.is_err());
}

#[test]
fn test_select_where_after_order_by_fails() {
    // A clause presented after a later clause is rejected with an error
    // citing both clauses.
    let mut parser = Parser::new_from_sql("SELECT * FROM t ORDER BY a LIMIT 1 WHERE b = 2");
    let err = parser.parse_select_statement().unwrap_err();
    assert!(err.message.contains("clause out of order"));
    assert!(err.message.contains("WHERE"));
    assert!(err.message.contains("ORDER BY"));
}

#[test]
fn test_select_repeated_clause_fails() {
    let mut parser = Parser::new_from_sql("SELECT * FROM t WHERE a = 1 WHERE b = 2");
    let err = parser.parse_select_statement().unwrap_err();
    assert!(err.message.contains("clause out of order"));
    assert!(err.message.contains("WHERE"));
}

#[test]
fn test_select_wildcard() {
    let mut parser = Parser::new_from_sql("SELECT * FROM users");
    let select = parser.parse_select_statement().unwrap();
    assert_eq!(select.columns, vec![SelectColumn::Wildcard]);
    assert!(!select.distinct);
}

#[test]
fn test_select_missing_from_fails() {
    let mut parser = Parser::new_from_sql("SELECT a, b");
    let err = parser.parse_select_statement().unwrap_err();
    assert!(err.message.contains("Expected FROM"));
}

#[test]
fn test_select_limit_errors() {
    let mut parser = Parser::new_from_sql("SELECT * FROM t LIMIT abc");
    let err = parser.parse_select_statement().unwrap_err();
    assert!(err.message.contains("Expected integer after LIMIT"));

    let mut parser = Parser::new_from_sql("SELECT * FROM t LIMIT 99999999999999999999");
    let err = parser.parse_select_statement().unwrap_err();
    assert!(err.message.contains("Expected integer after LIMIT"));

    let mut parser = Parser::new_from_sql("SELECT * FROM t LIMIT 3 OFFSET x");
    let err = parser.parse_select_statement().unwrap_err();
    assert!(err.message.contains("Expected integer after OFFSET"));
}
