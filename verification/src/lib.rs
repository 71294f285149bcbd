//! A hand-written front end for a SQL dialect (SELECT / INSERT / DELETE with
//! MySQL-flavored extensions). Raw SQL text is tokenized by a character-level
//! lexer and parsed by a recursive-descent parser into a typed syntax tree.
//!
//! The lexer carries an exact functional specification: `tokenize` is proved
//! to return the token sequence described by the specification-level lexer in
//! `lexspec`. The parser contracts pin down cursor behaviour, clause ordering,
//! the expression-nesting guard, and the INSERT data-source invariant.

pub mod ast;
pub mod chars;
pub mod laws;
pub mod lexspec;
pub mod numeric;
pub mod parser;
pub mod strutil;
pub mod vocab;
pub mod token;

pub use parser::delete::DeleteStatementParser;
pub use parser::select::SelectStatementParser;
pub use parser::{ParseError, Parser, StatementParser};
pub use token::Token;
