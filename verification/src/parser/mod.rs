//! The token cursor and the parse-error type.
//!
//! All statement and expression parsing is driven through this cursor: a
//! single forward position over the token sequence, with peek, consume,
//! single-step rewind, and consume-on-match helpers. Every method carries
//! an exact contract over the cursor's token sequence and position.

use vstd::prelude::*;
use crate::ast::SQLStatement;
use crate::chars::{to_upper_char, upper_seq};
use crate::lexspec::spec_tokenize;
use crate::strutil::{chars_to_string, str_eq, str_to_chars};
use crate::token::{tokens_view, Token, TokenModel};
use crate::vocab::{std_keywords, std_types};

pub mod common;
pub mod delete;
pub mod expr;
pub mod exprspec;
pub mod insert;
pub mod select;
pub mod stmtspec;

verus! {

/// A structured parse error: a message with a context window, and the
/// token position at which parsing failed.
#[derive(Debug)]
pub struct ParseError {
    pub message: String,
    pub token_position: usize,
}

/// The parser: a token sequence and one forward position into it.
pub struct Parser {
    tokens: Vec<Token>,
    current: usize,
}

/// The statement-parsing interface: a token stream turned into a statement
/// node or a parse error.
pub trait StatementParser {
    fn parse(&mut self) -> Result<SQLStatement, ParseError>;
}

impl Parser {
    /// The token sequence.
    pub closed spec fn toks(self) -> Seq<Token> {
        self.tokens@
    }

    /// The cursor position.
    pub closed spec fn pos(self) -> int {
        self.current as int
    }

    /// A well-formed cursor: the position never passes the end, and the
    /// token count fits the machine.
    pub closed spec fn wf(self) -> bool {
        &&& self.current as int <= self.tokens@.len()
        &&& self.tokens@.len() <= usize::MAX
    }

    /// Whether a keyword token with this upper-cased text stands at the
    /// cursor.
    pub open spec fn kw_at(self, k: Seq<char>) -> bool {
        &&& self.pos() < self.toks().len()
        &&& self.toks()[self.pos()]@ matches TokenModel::Keyword(s) && upper_seq(s) == upper_seq(
            k,
        )
    }

    /// Whether this punctuator stands at the cursor.
    pub open spec fn punct_at(self, c: char) -> bool {
        &&& self.pos() < self.toks().len()
        &&& self.toks()[self.pos()]@ matches TokenModel::Punctuator(p) && p == c
    }

    /// Whether an operator token with this symbol stands at the cursor.
    pub open spec fn op_at(self, sym: Seq<char>) -> bool {
        &&& self.pos() < self.toks().len()
        &&& self.toks()[self.pos()]@ matches TokenModel::Operator(s) && s == sym
    }

    /// A parser over the given tokens, at the start.
    pub fn new(tokens: Vec<Token>) -> (p: Parser)
        ensures
            p.toks() == tokens@,
            p.pos() == 0,
            p.wf(),
    {
        let n: usize = tokens.len();
        proof {
            assert(n == tokens@.len());
        }
        Parser { tokens, current: 0 }
    }

    /// A parser over the tokens of the given SQL text, at the start.
    pub fn new_from_sql(sql: &str) -> (p: Parser)
        ensures
            tokens_view(p.toks()) == spec_tokenize(sql@, std_keywords(), std_types()),
            p.pos() == 0,
            p.wf(),
    {
        let tokens = crate::token::tokenize(sql);
        let n: usize = tokens.len();
        proof {
            assert(n == tokens@.len());
        }
        Parser { tokens, current: 0 }
    }

    /// Whether the cursor is within bounds. This always holds for a parser
    /// built by the constructors; unverified callers through the trait
    /// interfaces re-check it before parsing.
    pub fn cursor_in_bounds(&self) -> (r: bool)
        ensures
            r == self.wf(),
    {
        self.current <= self.tokens.len()
    }

    /// The error reported when the cursor bound does not hold.
    pub(crate) fn cursor_bound_error(&self) -> ParseError {
        ParseError {
            message: String::from_str("parser cursor out of bounds"),
            token_position: self.current,
        }
    }

    /// The current token, if any, without consuming it.
    pub fn peek(&self) -> (r: Option<&Token>)
        ensures
            match r {
                Some(t) => self.pos() < self.toks().len() && *t == self.toks()[self.pos()],
                None => self.pos() >= self.toks().len(),
            },
    {
        if self.current < self.tokens.len() {
            Some(&self.tokens[self.current])
        } else {
            None
        }
    }

    /// The token `n` places past the current one, if any.
    pub fn peek_n(&self, n: usize) -> (r: Option<&Token>)
        requires
            self.pos() + n <= usize::MAX,
        ensures
            match r {
                Some(t) => self.pos() + n < self.toks().len() && *t == self.toks()[self.pos()
                    + n],
                None => self.pos() + n >= self.toks().len(),
            },
    {
        if self.current + n < self.tokens.len() {
            Some(&self.tokens[self.current + n])
        } else {
            None
        }
    }

    /// The current token, consumed: the cursor advances by one.
    pub fn consume_token(&mut self) -> (r: Option<Token>)
        ensures
            final(self).toks() == old(self).toks(),
            match r {
                Some(t) => old(self).pos() < old(self).toks().len() && t == old(
                    self,
                ).toks()[old(self).pos()] && final(self).pos() == old(self).pos() + 1,
                None => old(self).pos() >= old(self).toks().len() && final(self).pos() == old(
                    self,
                ).pos(),
            },
            old(self).wf() ==> final(self).wf(),
    {
        if self.current < self.tokens.len() {
            let token = self.tokens[self.current].clone();
            self.current += 1;
            Some(token)
        } else {
            None
        }
    }

    /// Whether tokens remain.
    pub fn has_more(&self) -> (r: bool)
        ensures
            r == (self.pos() < self.toks().len()),
    {
        self.current < self.tokens.len()
    }

    /// The cursor advanced by `n`, clamped to the end.
    pub fn skip(&mut self, n: usize)
        requires
            old(self).pos() + n <= usize::MAX,
        ensures
            final(self).toks() == old(self).toks(),
            final(self).pos() == if old(self).pos() + n <= old(self).toks().len() {
                old(self).pos() + n
            } else {
                old(self).toks().len() as int
            },
            final(self).wf(),
    {
        let bumped = self.current + n;
        let len = self.tokens.len();
        self.current = if bumped < len {
            bumped
        } else {
            len
        };
    }

    /// The cursor rewound by one, never before the start.
    pub fn back(&mut self)
        ensures
            final(self).toks() == old(self).toks(),
            final(self).pos() == if old(self).pos() > 0 {
                old(self).pos() - 1
            } else {
                0
            },
            old(self).wf() ==> final(self).wf(),
    {
        if self.current > 0 {
            self.current -= 1;
        }
    }

    /// The punctuator consumed if it stands at the cursor; no consumption
    /// on mismatch.
    pub fn match_punctuator(&mut self, punctuator: char) -> (r: bool)
        ensures
            final(self).toks() == old(self).toks(),
            r == old(self).punct_at(punctuator),
            final(self).pos() == old(self).pos() + (if r {
                1int
            } else {
                0int
            }),
            old(self).wf() ==> final(self).wf(),
    {
        if self.current < self.tokens.len() {
            let matched = match &self.tokens[self.current] {
                Token::Punctuator(p) => *p == punctuator,
                _ => false,
            };
            if matched {
                self.current += 1;
                return true;
            }
        }
        false
    }

    /// Whether the punctuator stands at the cursor; never consumes.
    pub fn is_punctuator(&self, punctuator: char) -> (r: bool)
        ensures
            r == self.punct_at(punctuator),
    {
        if self.current < self.tokens.len() {
            match &self.tokens[self.current] {
                Token::Punctuator(p) => *p == punctuator,
                _ => false,
            }
        } else {
            false
        }
    }

    /// The keyword consumed if it stands at the cursor, matched without
    /// regard to case; no consumption on mismatch.
    pub fn match_keyword(&mut self, keyword: &str) -> (r: bool)
        ensures
            final(self).toks() == old(self).toks(),
            r == old(self).kw_at(keyword@),
            final(self).pos() == old(self).pos() + (if r {
                1int
            } else {
                0int
            }),
            old(self).wf() ==> final(self).wf(),
    {
        if self.current < self.tokens.len() {
            let matched = match &self.tokens[self.current] {
                Token::Keyword(k) => eq_upper(k.as_str(), keyword),
                _ => false,
            };
            if matched {
                self.current += 1;
                return true;
            }
        }
        false
    }

    /// Whether the keyword stands at the cursor, matched without regard to
    /// case; never consumes.
    pub fn is_keyword(&self, keyword: &str) -> (r: bool)
        ensures
            r == self.kw_at(keyword@),
    {
        if self.current < self.tokens.len() {
            match &self.tokens[self.current] {
                Token::Keyword(k) => eq_upper(k.as_str(), keyword),
                _ => false,
            }
        } else {
            false
        }
    }

    /// The operator consumed if it stands at the cursor; no consumption on
    /// mismatch.
    pub fn match_operator(&mut self, operator: &str) -> (r: bool)
        ensures
            final(self).toks() == old(self).toks(),
            r == old(self).op_at(operator@),
            final(self).pos() == old(self).pos() + (if r {
                1int
            } else {
                0int
            }),
            old(self).wf() ==> final(self).wf(),
    {
        if self.current < self.tokens.len() {
            let matched = match &self.tokens[self.current] {
                Token::Operator(op) => str_eq(op.as_str(), operator),
                _ => false,
            };
            if matched {
                self.current += 1;
                return true;
            }
        }
        false
    }

    /// Whether the operator stands at the cursor; never consumes.
    pub fn is_operator(&self, operator: &str) -> (r: bool)
        ensures
            r == self.op_at(operator@),
    {
        if self.current < self.tokens.len() {
            match &self.tokens[self.current] {
                Token::Operator(op) => str_eq(op.as_str(), operator),
                _ => false,
            }
        } else {
            false
        }
    }
}

/// The cursor relation every parsing function maintains: the tokens are
/// untouched, the position only moves forward, and the cursor stays well
/// formed.
pub open spec fn cursor_ok(pre: Parser, post: Parser) -> bool {
    &&& post.toks() == pre.toks()
    &&& pre.pos() <= post.pos()
    &&& post.wf()
}

/// The readable rendering of one token in diagnostics.
pub open spec fn spec_format_token(t: TokenModel) -> Seq<char> {
    match t {
        TokenModel::Keyword(k) => k,
        TokenModel::Identifier(id) => id,
        TokenModel::StringLiteral(s) => seq!['\''] + s + seq!['\''],
        TokenModel::NumericLiteral(n) => n,
        TokenModel::Operator(o) => o,
        TokenModel::Punctuator(c) => seq![c],
        TokenModel::DataType { name, length } => match length {
            Some(l) => name + seq!['('] + l + seq![')'],
            None => name,
        },
        TokenModel::QualifiedIdentifier { qualifier, name } => qualifier + seq!['.'] + name,
    }
}

/// The rendered tokens of the context window `[i, end)`, a marker before
/// the token at `pos`, one space between tokens.
#[verifier::opaque]
pub open spec fn ctx_parts(toks: Seq<Token>, pos: int, i: int, end: int) -> Seq<char>
    decreases end - i,
    when i <= end
{
    if i >= end || i < 0 || end > toks.len() {
        Seq::empty()
    } else {
        (if i == pos {
            seq!['-', '>', ' ']
        } else {
            Seq::empty()
        }) + spec_format_token(toks[i]@) + (if i + 1 < end {
            seq![' ']
        } else {
            Seq::empty()
        }) + ctx_parts(toks, pos, i + 1, end)
    }
}

/// The quoted context window around the cursor: up to three tokens before
/// it and one after it.
#[verifier::opaque]
pub open spec fn spec_error_context(toks: Seq<Token>, pos: int) -> Seq<char> {
    let start = if pos > 3 {
        pos - 3
    } else {
        0
    };
    let end = if pos + 2 <= toks.len() {
        pos + 2
    } else {
        toks.len() as int
    };
    seq!['"'] + ctx_parts(toks, pos, start, end) + seq!['"']
}

/// The separator between a message and its context window.
pub open spec fn near_sep() -> Seq<char> {
    seq!['.', ' ', 'N', 'e', 'a', 'r', ':', ' ']
}

/// The message of a parse error: the description, then the context window.
pub open spec fn spec_error_msg(msg: Seq<char>, toks: Seq<Token>, pos: int) -> Seq<char> {
    msg + near_sep() + spec_error_context(toks, pos)
}

impl Parser {
    /// One token rendered readably for diagnostics.
    pub fn format_token(&self, token: &Token) -> (r: String)
        ensures
            r@ == spec_format_token(token@),
    {
        let mut out: Vec<char> = Vec::new();
        match token {
            Token::Keyword(k) => {
                let mut cs = str_to_chars(k.as_str());
                out.append(&mut cs);
            },
            Token::Identifier(id) => {
                let mut cs = str_to_chars(id.as_str());
                out.append(&mut cs);
            },
            Token::StringLiteral(s) => {
                out.push('\'');
                let mut cs = str_to_chars(s.as_str());
                out.append(&mut cs);
                out.push('\'');
                proof {
                    assert(out@ =~= spec_format_token(token@));
                }
            },
            Token::NumericLiteral(n) => {
                let mut cs = str_to_chars(n.as_str());
                out.append(&mut cs);
            },
            Token::Operator(o) => {
                let mut cs = str_to_chars(o.as_str());
                out.append(&mut cs);
            },
            Token::Punctuator(c) => {
                out.push(*c);
                proof {
                    assert(out@ =~= spec_format_token(token@));
                }
            },
            Token::DataType { name, length } => {
                let mut cs = str_to_chars(name.as_str());
                out.append(&mut cs);
                match length {
                    Some(l) => {
                        out.push('(');
                        let mut ls = str_to_chars(l.as_str());
                        out.append(&mut ls);
                        out.push(')');
                        proof {
                            assert(out@ =~= spec_format_token(token@));
                        }
                    },
                    None => {},
                }
            },
            Token::QualifiedIdentifier { qualifier, name } => {
                let mut qs = str_to_chars(qualifier.as_str());
                out.append(&mut qs);
                out.push('.');
                let mut ns = str_to_chars(name.as_str());
                out.append(&mut ns);
                proof {
                    assert(out@ =~= spec_format_token(token@));
                }
            },
        }
        proof {
            assert(out@ =~= spec_format_token(token@));
        }
        chars_to_string(&out)
    }

    /// The context window around the cursor, rendered for diagnostics.
    pub fn get_error_context(&self) -> (r: String)
        requires
            self.wf(),
        ensures
            r@ == spec_error_context(self.toks(), self.pos()),
    {
        let len: usize = self.tokens.len();
        let start: usize = if self.current > 3 {
            self.current - 3
        } else {
            0
        };
        let end: usize = if len - self.current > 2 {
            self.current + 2
        } else {
            len
        };
        let mut out: Vec<char> = Vec::new();
        out.push('"');
        proof {
            reveal(ctx_parts);
            reveal(spec_error_context);
            assert(out@ =~= seq!['"']);
        }
        let mut i: usize = start;
        while i < end
            invariant
                start <= i <= end,
                end <= len,
                len == self.toks().len(),
                self.wf(),
                start == (if self.pos() > 3 {
                    self.pos() - 3
                } else {
                    0int
                }),
                end == (if self.pos() + 2 <= self.toks().len() {
                    self.pos() + 2
                } else {
                    self.toks().len() as int
                }),
                seq!['"'] + ctx_parts(self.toks(), self.pos(), start as int, end as int) == out@
                    + ctx_parts(self.toks(), self.pos(), i as int, end as int),
            decreases end - i,
        {
            let ghost toks = self.toks();
            let ghost pos = self.pos();
            proof {
                reveal(ctx_parts);
            }
            let ghost step = (if i as int == pos {
                seq!['-', '>', ' ']
            } else {
                Seq::<char>::empty()
            }) + spec_format_token(toks[i as int]@) + (if i + 1 < end {
                seq![' ']
            } else {
                Seq::<char>::empty()
            });
            proof {
                reveal(ctx_parts);
                assert(ctx_parts(toks, pos, i as int, end as int) == step + ctx_parts(
                    toks,
                    pos,
                    i + 1,
                    end as int,
                ));
            }
            let ghost pre = out@;
            if i == self.current {
                out.push('-');
                out.push('>');
                out.push(' ');
            }
            let ft = self.format_token(&self.tokens[i]);
            let mut fc = str_to_chars(ft.as_str());
            out.append(&mut fc);
            if i + 1 < end {
                out.push(' ');
            }
            proof {
                assert(out@ =~= pre + step);
                assert((pre + step) + ctx_parts(toks, pos, i + 1, end as int) =~= pre + (step
                    + ctx_parts(toks, pos, i + 1, end as int)));
            }
            i += 1;
        }
        proof {
            reveal(ctx_parts);
            assert(ctx_parts(self.toks(), self.pos(), i as int, end as int) =~= Seq::<
                char,
            >::empty());
            assert(out@ + Seq::<char>::empty() =~= out@);
        }
        out.push('"');
        proof {
            reveal(ctx_parts);
            reveal(spec_error_context);
            assert(out@ =~= spec_error_context(self.toks(), self.pos()));
        }
        chars_to_string(&out)
    }

    /// A parse error at the cursor: the message, the context window, and
    /// the token position.
    pub fn get_parse_error(&self, message: &str) -> (r: ParseError)
        requires
            self.wf(),
        ensures
            r.token_position == self.pos(),
            r.message@ == spec_error_msg(message@, self.toks(), self.pos()),
    {
        let context = self.get_error_context();
        let mut out: Vec<char> = str_to_chars(message);
        out.push('.');
        out.push(' ');
        out.push('N');
        out.push('e');
        out.push('a');
        out.push('r');
        out.push(':');
        out.push(' ');
        let mut cc = str_to_chars(context.as_str());
        out.append(&mut cc);
        proof {
            assert(out@ =~= spec_error_msg(message@, self.toks(), self.pos()));
        }
        ParseError { message: chars_to_string(&out), token_position: self.current }
    }
}

/// Whether two string slices are equal after ASCII upper-case folding.
pub(crate) fn eq_upper(a: &str, b: &str) -> (r: bool)
    ensures
        r == (upper_seq(a@) == upper_seq(b@)),
{
    let na: usize = a.unicode_len();
    let nb: usize = b.unicode_len();
    if na != nb {
        proof {
            assert(upper_seq(a@).len() != upper_seq(b@).len());
        }
        return false;
    }
    let mut i: usize = 0;
    while i < na
        invariant
            0 <= i <= na,
            na == a@.len(),
            na == b@.len(),
            forall|j: int| 0 <= j < i ==> upper_seq(a@)[j] == upper_seq(b@)[j],
        decreases na - i,
    {
        if to_upper_char(a.get_char(i)) != to_upper_char(b.get_char(i)) {
            proof {
                assert(upper_seq(a@)[i as int] != upper_seq(b@)[i as int]);
            }
            return false;
        }
        i += 1;
    }
    proof {
        assert(upper_seq(a@) =~= upper_seq(b@));
    }
    true
}

} // verus!
