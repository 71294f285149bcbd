use sqlfront::ast::common::TableReference;
use sqlfront::ast::delete::DeleteStatement;
use sqlfront::ast::expr::{BinaryOperator, Expr, LimitClause, OrderByExpr, Value};
use sqlfront::Parser;

#[test]
fn test_delete_parser() {
    let sql = "DELETE FROM users WHERE id = 1 ORDER BY name LIMIT 10";
    let mut parser = Parser::new_from_sql(sql);
    let result = parser.parse_delete_statement();
    if let Ok(delete) = result {
        let expect = DeleteStatement {
            table: TableReference { name: "users".to_string(), alias: None },
            where_clause: Some(Expr::BinaryOp {
                left: Box::new(Expr::Identifier("id".to_string())),
                op: BinaryOperator::Eq,
                right: Box::new(Expr::Literal(Value::Integer(1))),
            }),
            order_by: Some(vec![OrderByExpr {
                expr: Expr::Identifier("name".to_string()),
                asc: true,
            }]),
            limit: Some(LimitClause { limit: 10, offset: None }),
            is_return_count: true,
        };
        assert_eq!(delete, expect);
    } else {
        println!("Error parsing delete statement: {:?}", result.unwrap_err());
    }
}

#[test]
fn test_delete_alias_only_with_as() {
    // The DELETE target takes an alias only after an explicit AS.
    let mut parser = Parser::new_from_sql("DELETE FROM employees AS e WHERE id = 1");
    let delete = parser.parse_delete_statement().unwrap();
    assert_eq!(delete.table.name, "employees");
    assert_eq!(delete.table.alias, Some("e".to_string()));
    assert!(delete.where_clause.is_some());
}

#[test]
fn test_delete_bare_alias_not_taken() {
    // Without AS, a bare identifier after the DELETE target is not an
    // alias: parsing of the statement ends before it.
    let mut parser = Parser::new_from_sql("DELETE FROM employees e");
    let delete = parser.parse_delete_statement().unwrap();
    assert_eq!(delete.table.name, "employees");
    assert_eq!(delete.table.alias, None);
    assert_eq!(delete.where_clause, None);
    assert_eq!(delete.order_by, None);
    assert_eq!(delete.limit, None);
    assert!(delete.is_return_count);
}

#[test]
fn test_delete_complex_where() {
    let sql = "DELETE FROM employees WHERE (department = 'IT' AND salary > 100000) OR status = 'inactive' ORDER BY last_active DESC, name LIMIT 50";
    let mut parser = Parser::new_from_sql(sql);
    let delete = parser.parse_delete_statement().unwrap();
    assert_eq!(delete.table.name, "employees");
    match delete.where_clause.unwrap() {
        Expr::LogicalOp { op: sqlfront::ast::expr::LogicalOperator::Or, expressions } => {
            assert_eq!(expressions.len(), 2);
        },
        other => panic!("expected OR at the top, found {:?}", other),
    }
    let order_by = delete.order_by.unwrap();
    assert_eq!(order_by.len(), 2);
    assert!(!order_by[0].asc);
    assert!(order_by[1].asc);
    assert_eq!(delete.limit, Some(LimitClause { limit: 50, offset: None }));
}

#[test]
fn test_delete_where_after_limit_fails() {
    let mut parser = Parser::new_from_sql("DELETE FROM t LIMIT 1 WHERE a = 2");
    let err = parser.parse_delete_statement().unwrap_err();
    assert!(err.message.contains("clause out of order"));
    assert!(err.message.contains("WHERE"));
}

#[test]
fn test_delete_missing_from_fails() {
    let mut parser = Parser::new_from_sql("DELETE users");
    let err = parser.parse_delete_statement().unwrap_err();
    assert!(err.message.contains("Expected FROM"));
}

#[test]
fn test_delete_missing_table_fails() {
    let mut parser = Parser::new_from_sql("DELETE FROM WHERE id = 1");
    let err = parser.parse_delete_statement().unwrap_err();
    assert!(err.message.contains("Expected table name"));
}
