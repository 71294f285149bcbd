use sqlfront::token::{
    parse_identifier, parse_single_identifier, preprocess_input, tokenize, tokenize_with,
    try_parse_data_type, Token,
};
use sqlfront::vocab::Vocabulary;
use sqlfront::Parser;

#[test]
fn test_preprocess_input_block_comment() {
    let input = "SELECT * FROM users; /* block comment spanning multiple lines\ncontinued comment */";
    let expected = "SELECT * FROM users;";
    assert_eq!(preprocess_input(input), expected);
}

#[test]
fn test_preprocess_input_line_comment() {
    let input = "SELECT * FROM users -- this is a line comment\nWHERE id = 1;";
    let expected = "SELECT * FROM users WHERE id = 1;";
    assert_eq!(preprocess_input(input), expected);
}

#[test]
fn test_preprocess_input_combined_comments() {
    let input = "/* first comment */\nSELECT * FROM users -- line comment\nWHERE id = 1; /* second comment */";
    let expected = "SELECT * FROM users WHERE id = 1;";
    assert_eq!(preprocess_input(input), expected);
}

#[test]
fn test_preprocess_input_no_comment() {
    let input = "SELECT * FROM users WHERE id = 1;";
    let expected = "SELECT * FROM users WHERE id = 1;";
    assert_eq!(preprocess_input(input), expected);
}

#[test]
fn test_parse_identifier() {
    let input = "value=500";
    let expected = vec![
        Token::Identifier("value".to_string()),
        Token::Operator("=".to_string()),
        Token::NumericLiteral("500".to_string()),
    ];
    let result = parse_identifier(input);
    assert_eq!(result, expected);

    let input = "values(1,2,3)";
    let expected = vec![
        Token::Keyword("values".to_string()),
        Token::Punctuator('('),
        Token::NumericLiteral("1".to_string()),
        Token::Punctuator(','),
        Token::NumericLiteral("2".to_string()),
        Token::Punctuator(','),
        Token::NumericLiteral("3".to_string()),
        Token::Punctuator(')'),
    ];
    let result = parse_identifier(input);
    assert_eq!(result, expected);
}

#[test]
fn test_tokenize2() {
    let sql = r#"
    --
    -- Table structure for table `async_task`
    --

    DROP TABLE IF EXISTS `async_task`;
    /*!40101 SET @saved_cs_client     = @@character_set_client */;
    /*!50503 SET character_set_client = utf8mb4 */;
    CREATE TABLE `async_task` (
    `id` bigint unsigned NOT NULL AUTO_INCREMENT,
    `num` bigint unsigned NOT NULL DEFAULT '0' COMMENT '''Start block number''',
    `end_num` bigint unsigned NOT NULL DEFAULT '0' COMMENT '''End block number''',
    `name` varchar(256) NOT NULL DEFAULT '' COMMENT '''Task name''',
    PRIMARY KEY (`id`)
    ) ENGINE=InnoDB DEFAULT CHARSET=utf8mb4 COLLATE=utf8mb4_0900_ai_ci;
    /*!40101 SET character_set_client = @saved_cs_client */;
    "#;

    let tokens = tokenize(sql);

    println!("{:?}", tokens);
}

#[test]
fn test_tokenize1() {
    let sql = r#"
        CREATE TABLE IF NOT EXISTS `new_address_infos` (
            `id` VARCHAR(36) PRIMARY KEY NOT NULL,  -- 使用的uuid
            `address` char(42) NOT NULL DEFAULT '',
            `chain_id` int unsigned NOT NULL DEFAULT '200901',
            `category` varchar(20) NOT NULL DEFAULT 'Unknown',
            `risk_level` varchar(20) NOT NULL DEFAULT 'Low',
            `risk_category` varchar(50) DEFAULT NULL,
            `risk_hash` char(66) DEFAULT NULL COMMENT 'Risk Transaction hash',
            `risk_at` int unsigned DEFAULT NULL,
            `risk_origin` varchar(50) DEFAULT NULL,
            `creator` char(42) DEFAULT NULL,
            `end_class` varchar(50) NOT NULL DEFAULT 'Point',
            `first_time` int unsigned DEFAULT NULL,
            `comments` varchar(255) DEFAULT NULL,
            `label_group` varchar(50) DEFAULT NULL,
            `label_origin` varchar(50) DEFAULT NULL,
            `label` varchar(50) DEFAULT NULL,
            UNIQUE KEY `address` (`address`),
            KEY `label_group` (`label_group`)
        ) ENGINE=InnoDB DEFAULT CHARSET=utf8mb4 COLLATE=utf8mb4_0900_ai_ci;
    "#;
    let tokens = tokenize(sql);

    println!("{:?}", tokens);
}

#[test]
fn test_complex_tokens() {
    let sql = "DELETE FROM employees e WHERE (e.department = 'IT' AND e.salary > 100000) OR (e.last_active < '2023-01-01' AND e.status = 'inactive') ORDER BY e.last_active DESC, e.name LIMIT 50";
    let tokens = tokenize(sql);
    println!("{:?}", tokens);
}

#[test]
fn test_quoted_literal_round_trip_concrete() {
    let tokens = tokenize("'hello world, twice over'");
    assert_eq!(
        tokens,
        vec![Token::StringLiteral("hello world, twice over".to_string())]
    );
    let tokens = tokenize("'a b,c'");
    assert_eq!(tokens, vec![Token::StringLiteral("a b,c".to_string())]);
}

#[test]
fn test_preprocess_idempotent_concrete() {
    let once = preprocess_input("SELECT  *   FROM users -- trailing\nWHERE name = 'a b';");
    let twice = preprocess_input(&once);
    assert_eq!(twice, once);
    let once = preprocess_input("  INSERT INTO t /* x */ VALUES (1,  '2')  ");
    let twice = preprocess_input(&once);
    assert_eq!(twice, once);
}

#[test]
fn test_try_parse_data_type_forms() {
    assert_eq!(
        try_parse_data_type("VARCHAR(36)"),
        Some(Token::DataType { name: "VARCHAR".to_string(), length: Some("36".to_string()) })
    );
    assert_eq!(
        try_parse_data_type("varchar"),
        Some(Token::DataType { name: "varchar".to_string(), length: None })
    );
    assert_eq!(
        try_parse_data_type("int()"),
        Some(Token::DataType { name: "int".to_string(), length: None })
    );
    assert_eq!(try_parse_data_type("frobnicate(3)"), None);
    assert_eq!(try_parse_data_type("users"), None);
}

#[test]
fn test_tokenize_qualified_and_float() {
    let tokens = tokenize("e.salary 3.14");
    assert_eq!(
        tokens,
        vec![
            Token::QualifiedIdentifier { qualifier: "e".to_string(), name: "salary".to_string() },
            Token::NumericLiteral("3.14".to_string()),
        ]
    );
}

#[test]
fn test_tokenize_trailing_punctuation_and_backticks() {
    let tokens = tokenize("`users`, name;");
    assert_eq!(
        tokens,
        vec![
            Token::Identifier("users".to_string()),
            Token::Punctuator(','),
            Token::Identifier("name".to_string()),
            Token::Punctuator(';'),
        ]
    );
}

#[test]
fn test_tokenize_with_custom_vocabulary() {
    let vocab = Vocabulary::new(vec!["FETCH".to_string()], vec!["POINT".to_string()]);
    let tokens = tokenize_with("fetch rows point(2)", &vocab);
    assert_eq!(
        tokens,
        vec![
            Token::Keyword("fetch".to_string()),
            Token::Identifier("rows".to_string()),
            Token::DataType { name: "point".to_string(), length: Some("2".to_string()) },
        ]
    );
}

#[test]
fn test_tokenize_data_type_in_statement() {
    let tokens = tokenize("`id` VARCHAR(36) NOT NULL");
    assert_eq!(
        tokens,
        vec![
            Token::Identifier("id".to_string()),
            Token::DataType { name: "VARCHAR".to_string(), length: Some("36".to_string()) },
            Token::Keyword("NOT".to_string()),
            Token::Keyword("NULL".to_string()),
        ]
    );
}

#[test]
fn test_cursor_peek_and_skip() {
    let mut parser = Parser::new(tokenize("SELECT a FROM t"));
    assert_eq!(parser.peek(), Some(&Token::Keyword("SELECT".to_string())));
    assert_eq!(parser.peek_n(1), Some(&Token::Identifier("a".to_string())));
    assert_eq!(parser.peek_n(9), None);
    parser.skip(2);
    assert_eq!(parser.peek(), Some(&Token::Keyword("FROM".to_string())));
    parser.skip(99);
    assert!(!parser.has_more());
}

#[test]
fn test_unterminated_quoting_is_tolerated() {
    let tokens = parse_single_identifier("`abc");
    assert_eq!(tokens, vec![Token::Identifier("abc".to_string())]);
    let tokens = parse_single_identifier("x'abc");
    assert_eq!(tokens, vec![Token::Identifier("x".to_string())]);
}
