use sqlfront::ast::expr::{Expr, Value};
use sqlfront::Parser;

#[test]
fn test_basic_insert() {
    let sql = "INSERT INTO users (id, name, email) VALUES (1, 'John', 'john@example.com')";
    let mut parser = Parser::new_from_sql(sql);
    let result = parser.parse_insert_statement();

    assert!(result.is_ok(), "parse failed: {:?}", result.err());
    let stmt = result.unwrap();

    assert_eq!(stmt.table.name, "users");
    assert_eq!(stmt.table.alias, None);

    assert_eq!(
        stmt.columns,
        Some(vec!["id".to_string(), "name".to_string(), "email".to_string()])
    );

    assert!(stmt.values.is_some());
    let values = stmt.values.unwrap();
    assert_eq!(values.len(), 1);
    assert_eq!(values[0].len(), 3);

    if let Expr::Literal(Value::Integer(num)) = &values[0][0] {
        assert_eq!(*num, 1);
    } else {
        panic!("Expected integer 1, found {:?}", values[0][0]);
    }

    if let Expr::Literal(Value::String(s)) = &values[0][1] {
        assert_eq!(*s, "John".to_string());
    } else {
        panic!("Expected string 'John', found {:?}", values[0][1]);
    }

    if let Expr::Literal(Value::String(s)) = &values[0][2] {
        assert_eq!(*s, "john@example.com".to_string());
    } else {
        panic!("Expected string 'john@example.com', found {:?}", values[0][2]);
    }
}

#[test]
fn test_insert_two_sources_fails() {
    let sql = "INSERT INTO t (a) VALUES (1) SET a = 1";
    let mut parser = Parser::new_from_sql(sql);
    let err = parser.parse_insert_statement().unwrap_err();
    assert!(err.message.contains("Cannot specify multiple value sources"));
}

#[test]
fn test_insert_zero_sources_fails() {
    let sql = "INSERT INTO t (a)";
    let mut parser = Parser::new_from_sql(sql);
    let err = parser.parse_insert_statement().unwrap_err();
    assert!(err.message.contains("Expected VALUES, SELECT, DEFAULT VALUES or SET"));
}

#[test]
fn test_insert_one_source_succeeds() {
    let sql = "INSERT INTO t (a) VALUES (1)";
    let mut parser = Parser::new_from_sql(sql);
    let stmt = parser.parse_insert_statement().unwrap();
    assert!(stmt.values.is_some());
    assert!(stmt.set_clause.is_none());
    assert!(stmt.select_clause.is_none());
    assert!(!stmt.is_default_values);
    assert!(stmt.is_return_count);
}

#[test]
fn test_insert_set_source() {
    let sql = "INSERT INTO logs SET message = 'Error occurred', level = 'ERROR'";
    let mut parser = Parser::new_from_sql(sql);
    let stmt = parser.parse_insert_statement().unwrap();
    assert_eq!(stmt.table.name, "logs");
    assert!(stmt.values.is_none());
    let set_clause = stmt.set_clause.unwrap();
    assert_eq!(set_clause.len(), 2);
    assert_eq!(set_clause[0].0, "message");
    if let Expr::Literal(Value::String(s)) = &set_clause[0].1 {
        assert_eq!(*s, "Error occurred".to_string());
    } else {
        panic!("Expected string 'Error occurred', found {:?}", set_clause[0].1);
    }
    assert_eq!(set_clause[1].0, "level");
}

#[test]
fn test_insert_default_values() {
    let mut parser = Parser::new_from_sql("INSERT INTO t DEFAULT VALUES");
    let stmt = parser.parse_insert_statement().unwrap();
    assert!(stmt.is_default_values);
    assert!(stmt.columns.is_none());

    let mut parser = Parser::new_from_sql("INSERT INTO t (a) DEFAULT VALUES");
    let err = parser.parse_insert_statement().unwrap_err();
    assert!(err.message.contains("Cannot specify columns with DEFAULT VALUES"));

    let mut parser = Parser::new_from_sql("INSERT INTO t DEFAULT");
    let err = parser.parse_insert_statement().unwrap_err();
    assert!(err.message.contains("Expected VALUES after DEFAULT"));
}

#[test]
fn test_insert_multirow_on_duplicate() {
    let sql = "INSERT INTO products (id, name, price) VALUES (101, 'Laptop', 999.99), (102, 'Phone', 499.99) ON DUPLICATE KEY UPDATE price = price";
    let mut parser = Parser::new_from_sql(sql);
    let stmt = parser.parse_insert_statement().unwrap();
    assert_eq!(stmt.table.name, "products");
    let values = stmt.values.unwrap();
    assert_eq!(values.len(), 2);
    assert_eq!(values[0].len(), 3);
    if let Expr::Literal(Value::Float(text)) = &values[0][2] {
        let num: f64 = text.parse().unwrap();
        assert!((num - 999.99).abs() < 0.001);
    } else {
        panic!("Expected float 999.99, found {:?}", values[0][2]);
    }
    if let Expr::Literal(Value::Float(text)) = &values[1][2] {
        let num: f64 = text.parse().unwrap();
        assert!((num - 499.99).abs() < 0.001);
    } else {
        panic!("Expected float 499.99, found {:?}", values[1][2]);
    }
    let on_duplicate = stmt.on_duplicate.unwrap();
    assert_eq!(on_duplicate.updates.len(), 1);
    assert_eq!(on_duplicate.updates[0].0, "price");
}

#[test]
fn test_insert_empty_row() {
    let mut parser = Parser::new_from_sql("INSERT INTO t VALUES ()");
    let stmt = parser.parse_insert_statement().unwrap();
    let values = stmt.values.unwrap();
    assert_eq!(values.len(), 1);
    assert_eq!(values[0].len(), 0);
}

#[test]
fn test_insert_select_source() {
    let mut parser = Parser::new_from_sql("INSERT INTO archive SELECT id FROM users");
    let stmt = parser.parse_insert_statement().unwrap();
    assert!(stmt.select_clause.is_some());
    assert!(stmt.values.is_none());
    let select = stmt.select_clause.unwrap();
    assert_eq!(select.from.name, "users");
}

#[test]
fn test_insert_on_duplicate_requires_full_keywords() {
    let mut parser = Parser::new_from_sql("INSERT INTO t VALUES (1) ON DUPLICATE KEY");
    let err = parser.parse_insert_statement().unwrap_err();
    assert!(err.message.contains("Expected UPDATE after ON DUPLICATE KEY"));
}
