//! Lexical tokens of the SQL dialect, and the tokenizer.
//!
//! The tokenizer never fails: unrecognized fragments degrade to
//! identifiers, and unterminated quotes or backticks are flushed at end of
//! input. Each executable function is proved to return exactly what the
//! corresponding specification function in `lexspec` describes.

use vstd::prelude::*;
use crate::chars::{digits_only, is_word_char, sql_ws, to_upper_char, upper_seq, word_char};
use crate::lexspec::{
    classify_acc, classify_body, classify_word, classify_words, close_at, collapse_from,
    consume_block, consume_line, data_type_of, dot_scan, dot_tokens, find_open_paren, flush_acc,
    frags_from, has_block_close, is_op_sym, is_punct_char, is_single_op_char, is_split_punct,
    kw_in,
    mask_from, nl_to_space, other_char_tokens, restore_literal, spec_parse_identifier,
    spec_preprocess, spec_tokenize, strip_block_from, strip_line_from, sub_tok, sub_tok_frags,
    sub_tok_word, trim_back, trim_front, triple_from, words_from,
};
use crate::strutil::{chars_to_string, replace_chars, str_to_chars};
use crate::vocab::{std_keywords, std_types, Vocabulary};

verus! {

/// An atomic lexical unit produced by the tokenizer.
#[non_exhaustive]
#[derive(Debug, PartialEq)]
pub enum Token {
    /// A reserved word such as SELECT, FROM, WHERE.
    Keyword(String),
    /// A table or column name.
    Identifier(String),
    /// A single-quoted string literal, with the quotes stripped and
    /// escapes undone.
    StringLiteral(String),
    /// A numeric literal kept in text form; it is typed by the parser.
    NumericLiteral(String),
    /// An operator symbol such as `=`, `<`, `>=`.
    Operator(String),
    /// A punctuation character: comma, semicolon, parenthesis, dot.
    Punctuator(char),
    /// A data type, e.g. VARCHAR(36): a type name with an optional
    /// parenthesized length.
    DataType { name: String, length: Option<String> },
    /// A qualified column reference, e.g. `table.column`.
    QualifiedIdentifier { qualifier: String, name: String },
}

/// The mathematical model of a token: the same variants over character
/// sequences instead of heap strings.
pub enum TokenModel {
    Keyword(Seq<char>),
    Identifier(Seq<char>),
    StringLiteral(Seq<char>),
    NumericLiteral(Seq<char>),
    Operator(Seq<char>),
    Punctuator(char),
    DataType { name: Seq<char>, length: Option<Seq<char>> },
    QualifiedIdentifier { qualifier: Seq<char>, name: Seq<char> },
}

impl View for Token {
    type V = TokenModel;

    open spec fn view(&self) -> TokenModel {
        match self {
            Token::Keyword(s) => TokenModel::Keyword(s@),
            Token::Identifier(s) => TokenModel::Identifier(s@),
            Token::StringLiteral(s) => TokenModel::StringLiteral(s@),
            Token::NumericLiteral(s) => TokenModel::NumericLiteral(s@),
            Token::Operator(s) => TokenModel::Operator(s@),
            Token::Punctuator(c) => TokenModel::Punctuator(*c),
            Token::DataType { name, length } => TokenModel::DataType {
                name: name@,
                length: match length {
                    Some(l) => Some(l@),
                    None => None,
                },
            },
            Token::QualifiedIdentifier { qualifier, name } => TokenModel::QualifiedIdentifier {
                qualifier: qualifier@,
                name: name@,
            },
        }
    }
}

/// The model of a token sequence.
pub open spec fn tokens_view(v: Seq<Token>) -> Seq<TokenModel> {
    v.map_values(|t: Token| t@)
}

impl Clone for Token {
    /// A clone is equal to the original.
    fn clone(&self) -> (r: Self)
        ensures
            r == *self,
    {
        match self {
            Token::Keyword(s) => Token::Keyword(s.clone()),
            Token::Identifier(s) => Token::Identifier(s.clone()),
            Token::StringLiteral(s) => Token::StringLiteral(s.clone()),
            Token::NumericLiteral(s) => Token::NumericLiteral(s.clone()),
            Token::Operator(s) => Token::Operator(s.clone()),
            Token::Punctuator(c) => Token::Punctuator(*c),
            Token::DataType { name, length } => Token::DataType {
                name: name.clone(),
                length: match length {
                    Some(l) => Some(l.clone()),
                    None => None,
                },
            },
            Token::QualifiedIdentifier { qualifier, name } => Token::QualifiedIdentifier {
                qualifier: qualifier.clone(),
                name: name.clone(),
            },
        }
    }
}

// ---------------------------------------------------------------------------
// Preprocessing
// ---------------------------------------------------------------------------
/// The first block comment closer `*/` at or after `from`, if any.
fn find_block_close(v: &Vec<char>, from: usize) -> (r: Option<usize>)
    requires
        from <= v@.len(),
    ensures
        match r {
            Some(k) => from <= k && close_at(v@, k as int) && forall|m: int|
                from <= m < k ==> !close_at(v@, m),
            None => !has_block_close(v@, from as int),
        },
{
    let n: usize = v.len();
    let mut i: usize = from;
    while i < n
        invariant
            from <= i <= n,
            n == v@.len(),
            forall|m: int| from <= m < i ==> !close_at(v@, m),
        decreases n - i,
    {
        if i + 1 < n && v[i] == '*' && v[i + 1] == '/' {
            return Some(i);
        }
        i += 1;
    }
    proof {
        assert forall|k: int| from <= k implies !close_at(v@, k) by {
            if k < i {
            } else {
                assert(k + 1 >= v@.len());
            }
        }
    }
    None
}

/// The consumption of a terminated block comment equals resuming after its
/// first closer.
proof fn lemma_consume_block(s: Seq<char>, j: int, k: int)
    requires
        0 <= j <= k,
        close_at(s, k),
        forall|m: int| j <= m < k ==> !close_at(s, m),
    ensures
        consume_block(s, j) == strip_block_from(s, k + 2),
    decreases k - j,
{
    if j == k {
        assert(consume_block(s, j) == strip_block_from(s, j + 2));
    } else {
        assert(!close_at(s, j));
        assert(consume_block(s, j) == consume_block(s, j + 1));
        lemma_consume_block(s, j + 1, k);
    }
}

/// Block comments removed, executably.
fn strip_block(v: &Vec<char>) -> (r: Vec<char>)
    ensures
        r@ == strip_block_from(v@, 0),
{
    let n: usize = v.len();
    let mut out: Vec<char> = Vec::new();
    let mut i: usize = 0;
    while i < n
        invariant
            0 <= i <= n,
            n == v@.len(),
            strip_block_from(v@, 0) == out@ + strip_block_from(v@, i as int),
        decreases n - i,
    {
        if v[i] == '/' && i + 1 < n && v[i + 1] == '*' {
            match find_block_close(v, i + 2) {
                Some(k) => {
                    proof {
                        assert(close_at(v@, k as int));
                        assert(has_block_close(v@, i + 2));
                        lemma_consume_block(v@, i + 2, k as int);
                        assert(strip_block_from(v@, i as int) == strip_block_from(v@, k + 2));
                    }
                    i = k + 2;
                },
                None => {
                    proof {
                        assert(strip_block_from(v@, i as int) == seq![v@[i as int]]
                            + strip_block_from(v@, i + 1));
                        assert(out@.push(v@[i as int]) =~= out@ + seq![v@[i as int]]);
                        assert((out@ + seq![v@[i as int]]) + strip_block_from(v@, i + 1)
                            =~= out@ + (seq![v@[i as int]] + strip_block_from(v@, i + 1)));
                    }
                    out.push(v[i]);
                    i += 1;
                },
            }
        } else {
            proof {
                assert(strip_block_from(v@, i as int) == seq![v@[i as int]] + strip_block_from(
                    v@,
                    i + 1,
                ));
                assert(out@.push(v@[i as int]) =~= out@ + seq![v@[i as int]]);
                assert((out@ + seq![v@[i as int]]) + strip_block_from(v@, i + 1) =~= out@ + (seq![
                    v@[i as int],
                ] + strip_block_from(v@, i + 1)));
            }
            out.push(v[i]);
            i += 1;
        }
    }
    proof {
        assert(out@ + strip_block_from(v@, i as int) =~= out@);
    }
    out
}

/// The first newline at or after `from`, or the length if none.
fn find_newline(v: &Vec<char>, from: usize) -> (r: usize)
    requires
        from <= v@.len(),
    ensures
        from <= r <= v@.len(),
        r == v@.len() || v@[r as int] == '\n',
        forall|m: int| from <= m < r ==> v@[m] != '\n',
{
    let n: usize = v.len();
    let mut i: usize = from;
    while i < n
        invariant
            from <= i <= n,
            n == v@.len(),
            forall|m: int| from <= m < i ==> v@[m] != '\n',
        decreases n - i,
    {
        if v[i] == '\n' {
            return i;
        }
        i += 1;
    }
    i
}

/// The consumption of a line comment equals resuming at its newline, which
/// is kept, or emptiness at end of input.
proof fn lemma_consume_line(s: Seq<char>, j: int, k: int)
    requires
        0 <= j <= k <= s.len(),
        k == s.len() || s[k] == '\n',
        forall|m: int| j <= m < k ==> s[m] != '\n',
    ensures
        consume_line(s, j) == if k == s.len() {
            Seq::<char>::empty()
        } else {
            seq!['\n'] + strip_line_from(s, k + 1)
        },
    decreases k - j,
{
    if j == k {
    } else {
        lemma_consume_line(s, j + 1, k);
    }
}

/// Line comments removed, executably.
fn strip_line(v: &Vec<char>) -> (r: Vec<char>)
    ensures
        r@ == strip_line_from(v@, 0),
{
    let n: usize = v.len();
    let mut out: Vec<char> = Vec::new();
    let mut i: usize = 0;
    while i < n
        invariant
            0 <= i <= n,
            n == v@.len(),
            strip_line_from(v@, 0) == out@ + strip_line_from(v@, i as int),
        decreases n - i,
    {
        if v[i] == '-' && i + 1 < n && v[i + 1] == '-' {
            let k = find_newline(v, i + 2);
            proof {
                lemma_consume_line(v@, i + 2, k as int);
            }
            if k == n {
                proof {
                    assert(strip_line_from(v@, i as int) =~= Seq::<char>::empty());
                    assert(out@ + Seq::<char>::empty() =~= out@);
                }
                i = n;
            } else {
                proof {
                    assert(strip_line_from(v@, i as int) == seq!['\n'] + strip_line_from(
                        v@,
                        k + 1,
                    ));
                    assert(out@.push('\n') =~= out@ + seq!['\n']);
                    assert((out@ + seq!['\n']) + strip_line_from(v@, k + 1) =~= out@ + (seq!['\n']
                        + strip_line_from(v@, k + 1)));
                }
                out.push('\n');
                i = k + 1;
            }
        } else {
            proof {
                assert(strip_line_from(v@, i as int) == seq![v@[i as int]] + strip_line_from(
                    v@,
                    i + 1,
                ));
                assert(out@.push(v@[i as int]) =~= out@ + seq![v@[i as int]]);
                assert((out@ + seq![v@[i as int]]) + strip_line_from(v@, i + 1) =~= out@ + (seq![
                    v@[i as int],
                ] + strip_line_from(v@, i + 1)));
            }
            out.push(v[i]);
            i += 1;
        }
    }
    proof {
        assert(out@ + strip_line_from(v@, i as int) =~= out@);
    }
    out
}

/// Newlines replaced by spaces, executably.
fn replace_newlines(v: &Vec<char>) -> (r: Vec<char>)
    ensures
        r@ == nl_to_space(v@),
{
    let n: usize = v.len();
    let mut out: Vec<char> = Vec::new();
    let mut i: usize = 0;
    while i < n
        invariant
            0 <= i <= n,
            n == v@.len(),
            out@ == nl_to_space(v@.subrange(0, i as int)),
        decreases n - i,
    {
        let c = v[i];
        if c == '\n' {
            out.push(' ');
        } else {
            out.push(c);
        }
        proof {
            assert(out@ =~= nl_to_space(v@.subrange(0, i + 1 as int)));
        }
        i += 1;
    }
    proof {
        assert(v@.subrange(0, n as int) =~= v@);
    }
    out
}

/// Whitespace runs collapsed to one space, executably.
fn collapse_ws(v: &Vec<char>) -> (r: Vec<char>)
    ensures
        r@ == collapse_from(v@, 0, false),
{
    let n: usize = v.len();
    let mut out: Vec<char> = Vec::new();
    let mut i: usize = 0;
    let mut prev_ws = false;
    while i < n
        invariant
            0 <= i <= n,
            n == v@.len(),
            collapse_from(v@, 0, false) == out@ + collapse_from(v@, i as int, prev_ws),
        decreases n - i,
    {
        let c = v[i];
        if sql_ws(c) {
            if !prev_ws {
                proof {
                    assert(out@.push(' ') =~= out@ + seq![' ']);
                    assert((out@ + seq![' ']) + collapse_from(v@, i + 1, true) =~= out@ + (seq![
                        ' ',
                    ] + collapse_from(v@, i + 1, true)));
                }
                out.push(' ');
            } else {
                proof {
                    assert(Seq::<char>::empty() + collapse_from(v@, i + 1, true) =~= collapse_from(
                        v@,
                        i + 1,
                        true,
                    ));
                }
            }
            prev_ws = true;
        } else {
            proof {
                assert(out@.push(v@[i as int]) =~= out@ + seq![v@[i as int]]);
                assert((out@ + seq![v@[i as int]]) + collapse_from(v@, i + 1, false) =~= out@ + (
                seq![v@[i as int]] + collapse_from(v@, i + 1, false)));
            }
            out.push(c);
            prev_ws = false;
        }
        i += 1;
    }
    proof {
        assert(out@ + collapse_from(v@, i as int, prev_ws) =~= out@);
    }
    out
}

/// Removing `a` leading spaces is skipping them.
proof fn lemma_trim_front_skip(s: Seq<char>, a: int)
    requires
        0 <= a <= s.len(),
        forall|m: int| 0 <= m < a ==> s[m] == ' ',
        a == s.len() || s[a] != ' ',
    ensures
        trim_front(s) == s.skip(a),
    decreases a,
{
    if a == 0 {
        assert(s.skip(0) =~= s);
    } else {
        assert(s.len() > 0 && s[0] == ' ');
        lemma_trim_front_skip(s.skip(1), a - 1);
        assert(s.skip(1).skip(a - 1) =~= s.skip(a));
    }
}

/// Removing trailing spaces down to index `b` is taking the prefix.
proof fn lemma_trim_back_take(s: Seq<char>, b: int)
    requires
        0 <= b <= s.len(),
        forall|m: int| b <= m < s.len() ==> s[m] == ' ',
        b == 0 || s[b - 1] != ' ',
    ensures
        trim_back(s) == s.take(b),
    decreases s.len() - b,
{
    if b == s.len() {
        assert(s.take(b) =~= s);
    } else {
        assert(s.last() == ' ');
        lemma_trim_back_take(s.drop_last(), b);
        assert(s.drop_last().take(b) =~= s.take(b));
    }
}

/// Leading and trailing spaces removed, executably.
fn trim_spaces(v: &Vec<char>) -> (r: Vec<char>)
    ensures
        r@ == trim_back(trim_front(v@)),
{
    let n: usize = v.len();
    let mut a: usize = 0;
    while a < n && v[a] == ' '
        invariant
            0 <= a <= n,
            n == v@.len(),
            forall|m: int| 0 <= m < a ==> v@[m] == ' ',
        decreases n - a,
    {
        a += 1;
    }
    proof {
        lemma_trim_front_skip(v@, a as int);
    }
    if a == n {
        proof {
            assert(trim_front(v@) =~= Seq::<char>::empty());
            assert(trim_back(Seq::<char>::empty()) =~= Seq::<char>::empty());
        }
        let out: Vec<char> = Vec::new();
        return out;
    }
    let mut b: usize = n;
    while b > a && v[b - 1] == ' '
        invariant
            a <= b <= n,
            n == v@.len(),
            forall|m: int| b <= m < n ==> v@[m] == ' ',
        decreases b,
    {
        b -= 1;
    }
    proof {
        assert(v@[a as int] != ' ');
        assert(b > a);
        let t = v@.skip(a as int);
        assert(forall|m: int| b - a <= m < t.len() ==> t[m] == ' ');
        assert(t[b - a - 1] == v@[b - 1]);
        lemma_trim_back_take(t, b - a);
    }
    let mut out: Vec<char> = Vec::new();
    let mut i: usize = a;
    while i < b
        invariant
            a <= i <= b <= n,
            n == v@.len(),
            out@ == v@.subrange(a as int, i as int),
        decreases b - i,
    {
        out.push(v[i]);
        proof {
            assert(out@ =~= v@.subrange(a as int, i + 1 as int));
        }
        i += 1;
    }
    proof {
        assert(v@.skip(a as int).take(b - a as int) =~= v@.subrange(a as int, b as int));
    }
    out
}

/// Triple quotes normalized to one quote, executably.
fn normalize_triple_quotes(v: &Vec<char>) -> (r: Vec<char>)
    ensures
        r@ == triple_from(v@, 0),
{
    let n: usize = v.len();
    let mut out: Vec<char> = Vec::new();
    let mut i: usize = 0;
    while i < n
        invariant
            0 <= i <= n,
            n == v@.len(),
            triple_from(v@, 0) == out@ + triple_from(v@, i as int),
        decreases n - i,
    {
        if v[i] == '\'' && n - i > 2 && v[i + 1] == '\'' && v[i + 2] == '\'' {
            proof {
                assert(triple_from(v@, i as int) == seq!['\''] + triple_from(v@, i + 3));
                assert(out@.push('\'') =~= out@ + seq!['\'']);
                assert((out@ + seq!['\'']) + triple_from(v@, i + 3) =~= out@ + (seq!['\'']
                    + triple_from(v@, i + 3)));
            }
            out.push('\'');
            i += 3;
        } else {
            proof {
                assert(triple_from(v@, i as int) == seq![v@[i as int]] + triple_from(v@, i + 1));
                assert(out@.push(v@[i as int]) =~= out@ + seq![v@[i as int]]);
                assert((out@ + seq![v@[i as int]]) + triple_from(v@, i + 1) =~= out@ + (seq![
                    v@[i as int],
                ] + triple_from(v@, i + 1)));
            }
            out.push(v[i]);
            i += 1;
        }
    }
    proof {
        assert(out@ + triple_from(v@, i as int) =~= out@);
    }
    out
}

/// Spaces and commas inside single quotes masked with sentinels, executably.
fn mask_quoted(v: &Vec<char>) -> (r: Vec<char>)
    ensures
        r@ == mask_from(v@, 0, false),
{
    let n: usize = v.len();
    let mut out: Vec<char> = Vec::new();
    let mut i: usize = 0;
    let mut in_q = false;
    while i < n
        invariant
            0 <= i <= n,
            n == v@.len(),
            mask_from(v@, 0, false) == out@ + mask_from(v@, i as int, in_q),
        decreases n - i,
    {
        let c = v[i];
        let ghost pre = out@;
        if c == '\'' {
            out.push('\'');
            proof {
                assert(pre.push('\'') =~= pre + seq!['\'']);
                assert((pre + seq!['\'']) + mask_from(v@, i + 1, !in_q) =~= pre + (seq!['\'']
                    + mask_from(v@, i + 1, !in_q)));
            }
            in_q = !in_q;
        } else if c == ' ' && in_q {
            out.push('_');
            out.push('_');
            out.push('_');
            proof {
                assert(pre.push('_').push('_').push('_') =~= pre + seq!['_', '_', '_']);
                assert((pre + seq!['_', '_', '_']) + mask_from(v@, i + 1, in_q) =~= pre + (seq![
                    '_',
                    '_',
                    '_',
                ] + mask_from(v@, i + 1, in_q)));
            }
        } else if c == ',' && in_q {
            out.push('-');
            out.push('-');
            out.push('-');
            proof {
                assert(pre.push('-').push('-').push('-') =~= pre + seq!['-', '-', '-']);
                assert((pre + seq!['-', '-', '-']) + mask_from(v@, i + 1, in_q) =~= pre + (seq![
                    '-',
                    '-',
                    '-',
                ] + mask_from(v@, i + 1, in_q)));
            }
        } else {
            out.push(c);
            proof {
                assert(pre.push(v@[i as int]) =~= pre + seq![v@[i as int]]);
                assert((pre + seq![v@[i as int]]) + mask_from(v@, i + 1, in_q) =~= pre + (seq![
                    v@[i as int],
                ] + mask_from(v@, i + 1, in_q)));
            }
        }
        i += 1;
    }
    proof {
        assert(out@ + mask_from(v@, i as int, in_q) =~= out@);
    }
    out
}

/// The preprocessing pipeline over a character vector.
pub(crate) fn preprocess_chars(v: &Vec<char>) -> (r: Vec<char>)
    ensures
        r@ == spec_preprocess(v@),
{
    let a = strip_block(v);
    let b = strip_line(&a);
    let c = replace_newlines(&b);
    let d = trim_spaces(&collapse_ws(&c));
    let e = normalize_triple_quotes(&d);
    mask_quoted(&e)
}

/// Comments removed, newlines replaced by spaces, whitespace runs collapsed
/// to one space, the text trimmed, triple quotes normalized, and quoted
/// spaces and commas masked with sentinels.
pub fn preprocess_input(input: &str) -> (r: String)
    ensures
        r@ == spec_preprocess(input@),
{
    let v = str_to_chars(input);
    let p = preprocess_chars(&v);
    chars_to_string(&p)
}

// ---------------------------------------------------------------------------
// Token construction and small helpers
// ---------------------------------------------------------------------------
/// The model of an optional token.
pub open spec fn opt_token_view(r: Option<Token>) -> Option<TokenModel> {
    match r {
        Some(t) => Some(t@),
        None => None,
    }
}

/// The token-sequence model distributes over concatenation.
proof fn lemma_tokens_view_concat(a: Seq<Token>, b: Seq<Token>)
    ensures
        tokens_view(a + b) == tokens_view(a) + tokens_view(b),
{
    assert(tokens_view(a + b) =~= tokens_view(a) + tokens_view(b));
}

/// Appending one token to the model.
proof fn lemma_tokens_view_push(a: Seq<Token>, t: Token)
    ensures
        tokens_view(a.push(t)) == tokens_view(a) + seq![t@],
{
    assert(tokens_view(a.push(t)) =~= tokens_view(a) + seq![t@]);
}

/// Executable single-character operator test.
fn single_op_char(c: char) -> (r: bool)
    ensures
        r == is_single_op_char(c),
{
    c == '=' || c == '<' || c == '>' || c == '+' || c == '-' || c == '*' || c == '/' || c == '%'
}

/// Executable punctuator test.
fn punct_char(c: char) -> (r: bool)
    ensures
        r == is_punct_char(c),
{
    c == ',' || c == ';' || c == '(' || c == ')' || c == '.'
}

/// Executable split-punctuator test.
fn split_punct(c: char) -> (r: bool)
    ensures
        r == is_split_punct(c),
{
    c == '(' || c == ')' || c == ',' || c == ';'
}

/// Executable operator-symbol test.
fn op_sym(w: &Vec<char>) -> (r: bool)
    ensures
        r == is_op_sym(w@),
{
    if w.len() == 1 {
        single_op_char(w[0])
    } else if w.len() == 2 {
        w[1] == '=' && (w[0] == '<' || w[0] == '>' || w[0] == '!')
    } else {
        false
    }
}

/// The upper-case folding of a character vector, as a string.
fn upper_string(v: &Vec<char>) -> (s: String)
    ensures
        s@ == upper_seq(v@),
{
    let n: usize = v.len();
    let mut up: Vec<char> = Vec::new();
    let mut i: usize = 0;
    while i < n
        invariant
            0 <= i <= n,
            n == v@.len(),
            up@ == upper_seq(v@.subrange(0, i as int)),
        decreases n - i,
    {
        up.push(to_upper_char(v[i]));
        proof {
            assert(up@ =~= upper_seq(v@.subrange(0, i + 1 as int)));
        }
        i += 1;
    }
    proof {
        assert(v@.subrange(0, n as int) =~= v@);
    }
    chars_to_string(&up)
}

/// The classification of a flushed accumulator, executably.
fn flush_token(acc: &Vec<char>, vocab: &Vocabulary) -> (t: Token)
    ensures
        t@ == classify_acc(acc@, vocab.kws()),
{
    let up = upper_string(acc);
    if vocab.has_keyword(&up) {
        Token::Keyword(chars_to_string(acc))
    } else if digits_only(acc) {
        Token::NumericLiteral(chars_to_string(acc))
    } else {
        Token::Identifier(chars_to_string(acc))
    }
}

/// Skipping characters other than `(` leaves the search for the first `(`
/// unchanged.
proof fn lemma_find_paren_step(s: Seq<char>, j: int, i: int)
    requires
        0 <= j <= i <= s.len(),
        forall|m: int| j <= m < i ==> s[m] != '(',
    ensures
        find_open_paren(s, j) == find_open_paren(s, i),
    decreases i - j,
{
    if j < i {
        lemma_find_paren_step(s, j + 1, i);
    }
}

/// Recognition of a data-type word against a vocabulary, executably.
fn data_type_token(w: &Vec<char>, vocab: &Vocabulary) -> (r: Option<Token>)
    ensures
        opt_token_view(r) == data_type_of(w@, vocab.tys()),
{
    let up = upper_string(w);
    if vocab.has_type(&up) {
        return Some(Token::DataType { name: chars_to_string(w), length: None });
    }
    let n: usize = w.len();
    let mut i: usize = 0;
    while i < n
        invariant
            0 <= i <= n,
            n == w@.len(),
            !kw_in(vocab.tys(), upper_seq(w@)),
            forall|m: int| 0 <= m < i ==> w@[m] != '(',
        decreases n - i,
    {
        if w[i] == '(' {
            proof {
                lemma_find_paren_step(w@, 0, i as int);
                assert(find_open_paren(w@, i as int) == Some(i as int));
            }
            if w[n - 1] == ')' {
                let mut name: Vec<char> = Vec::new();
                let mut j: usize = 0;
                while j < i
                    invariant
                        0 <= j <= i <= n,
                        n == w@.len(),
                        name@ == w@.subrange(0, j as int),
                    decreases i - j,
                {
                    name.push(w[j]);
                    proof {
                        assert(name@ =~= w@.subrange(0, j + 1 as int));
                    }
                    j += 1;
                }
                let up_name = upper_string(&name);
                if vocab.has_type(&up_name) {
                    let mut inside: Vec<char> = Vec::new();
                    let mut j2: usize = i + 1;
                    while j2 < n - 1
                        invariant
                            i + 1 <= j2 <= n - 1,
                            n == w@.len(),
                            inside@ == w@.subrange(i + 1, j2 as int),
                        decreases n - j2,
                    {
                        inside.push(w[j2]);
                        proof {
                            assert(inside@ =~= w@.subrange(i + 1, j2 + 1 as int));
                        }
                        j2 += 1;
                    }
                    let length = if inside.len() == 0 {
                        None
                    } else {
                        Some(chars_to_string(&inside))
                    };
                    return Some(Token::DataType { name: chars_to_string(&name), length });
                } else {
                    return None;
                }
            } else {
                return None;
            }
        }
        i += 1;
    }
    proof {
        lemma_find_paren_step(w@, 0, n as int);
        assert(find_open_paren(w@, n as int) is None);
    }
    None
}

/// Whether the word is a recognized data type, optionally with a
/// parenthesized length, against the standard vocabulary.
pub fn try_parse_data_type(word: &str) -> (r: Option<Token>)
    ensures
        opt_token_view(r) == data_type_of(word@, std_types()),
{
    let vocab = Vocabulary::standard();
    let w = str_to_chars(word);
    data_type_token(&w, &vocab)
}

// ---------------------------------------------------------------------------
// The character-level sub-tokenizer
// ---------------------------------------------------------------------------
/// Concatenation of token models is associative.
proof fn lemma_tm_assoc(a: Seq<TokenModel>, b: Seq<TokenModel>, c: Seq<TokenModel>)
    ensures
        (a + b) + c == a + (b + c),
{
    assert((a + b) + c =~= a + (b + c));
}

/// Pushing a token extends the model by one.
fn push_token(out: &mut Vec<Token>, t: Token)
    ensures
        tokens_view(final(out)@) == tokens_view(old(out)@) + seq![t@],
        final(out)@ == old(out)@.push(t),
{
    let ghost pre = out@;
    out.push(t);
    proof {
        lemma_tokens_view_push(pre, t);
    }
}

/// The characters of `src` appended to `dst`.
fn append_chars(dst: &mut Vec<char>, src: &Vec<char>)
    ensures
        final(dst)@ == old(dst)@ + src@,
{
    let ghost pre = dst@;
    let n: usize = src.len();
    let mut i: usize = 0;
    while i < n
        invariant
            0 <= i <= n,
            n == src@.len(),
            dst@ == pre + src@.subrange(0, i as int),
        decreases n - i,
    {
        dst.push(src[i]);
        proof {
            assert(dst@ =~= pre + src@.subrange(0, i + 1 as int));
        }
        i += 1;
    }
    proof {
        assert(pre + src@.subrange(0, n as int) =~= pre + src@);
    }
}

/// The character-by-character scan of one fragment, in the initial state:
/// quoted runs become string literals, backtick runs identifiers,
/// accumulated word characters keywords, numbers or identifiers, a dot
/// introduces a qualified name or float literal, and any other character a
/// punctuator, operator or one-character identifier.
fn sub_tokenize(w: &Vec<char>, vocab: &Vocabulary) -> (r: Vec<Token>)
    ensures
        tokens_view(r@) == sub_tok_word(w@, vocab.kws()),
{
    let n: usize = w.len();
    let mut out: Vec<Token> = Vec::new();
    let mut acc: Vec<char> = Vec::new();
    let mut in_q = false;
    let mut qc: Vec<char> = Vec::new();
    let mut in_bt = false;
    let mut bc: Vec<char> = Vec::new();
    let mut i: usize = 0;
    while i < n
        invariant
            0 <= i <= n,
            n == w@.len(),
            !in_q ==> qc@ == Seq::<char>::empty(),
            !in_bt ==> bc@ == Seq::<char>::empty(),
            sub_tok_word(w@, vocab.kws()) == tokens_view(out@) + sub_tok(
                w@,
                i as int,
                acc@,
                in_q,
                qc@,
                in_bt,
                bc@,
                vocab.kws(),
            ),
        decreases n - i,
    {
        let ghost kws = vocab.kws();
        let ghost tail_before = sub_tok(w@, i as int, acc@, in_q, qc@, in_bt, bc@, kws);
        let c = w[i];
        if c == '\'' {
            if in_q {
                let t = Token::StringLiteral(chars_to_string(&qc));
                proof {
                    lemma_tm_assoc(tokens_view(out@), seq![t@], sub_tok(
                        w@,
                        i + 1,
                        acc@,
                        false,
                        Seq::empty(),
                        in_bt,
                        bc@,
                        kws,
                    ));
                }
                push_token(&mut out, t);
                qc.clear();
                in_q = false;
            } else {
                if acc.len() > 0 {
                    let t = flush_token(&acc, vocab);
                    proof {
                        lemma_tm_assoc(tokens_view(out@), seq![t@], sub_tok(
                            w@,
                            i + 1,
                            Seq::empty(),
                            true,
                            qc@,
                            in_bt,
                            bc@,
                            kws,
                        ));
                    }
                    push_token(&mut out, t);
                }
                acc.clear();
                in_q = true;
            }
            i += 1;
        } else if in_q {
            qc.push(c);
            i += 1;
        } else if c == '`' {
            if in_bt {
                let t = Token::Identifier(chars_to_string(&bc));
                proof {
                    lemma_tm_assoc(tokens_view(out@), seq![t@], sub_tok(
                        w@,
                        i + 1,
                        acc@,
                        in_q,
                        qc@,
                        false,
                        Seq::empty(),
                        kws,
                    ));
                }
                push_token(&mut out, t);
                bc.clear();
                in_bt = false;
            } else {
                if acc.len() > 0 {
                    let t = flush_token(&acc, vocab);
                    proof {
                        lemma_tm_assoc(tokens_view(out@), seq![t@], sub_tok(
                            w@,
                            i + 1,
                            Seq::empty(),
                            in_q,
                            qc@,
                            true,
                            bc@,
                            kws,
                        ));
                    }
                    push_token(&mut out, t);
                }
                acc.clear();
                in_bt = true;
            }
            i += 1;
        } else if in_bt {
            bc.push(c);
            i += 1;
        } else if word_char(c) {
            acc.push(c);
            i += 1;
        } else if c == '.' {
            let ghost q_snap = acc@;
            proof {
                assert(tail_before == dot_scan(w@, i + 1, q_snap, Seq::empty(), kws));
            }
            let mut name: Vec<char> = Vec::new();
            let mut j: usize = i + 1;
            while j < n && word_char(w[j])
                invariant
                    i + 1 <= j <= n,
                    n == w@.len(),
                    kws == vocab.kws(),
                    dot_scan(w@, i + 1, q_snap, Seq::empty(), kws) == dot_scan(
                        w@,
                        j as int,
                        q_snap,
                        name@,
                        kws,
                    ),
                    name@ == w@.subrange(i + 1, j as int),
                decreases n - j,
            {
                proof {
                    assert(dot_scan(w@, j as int, q_snap, name@, kws) == dot_scan(
                        w@,
                        j + 1,
                        q_snap,
                        name@.push(w@[j as int]),
                        kws,
                    ));
                }
                name.push(w[j]);
                proof {
                    assert(name@ =~= w@.subrange(i + 1, j + 1 as int));
                }
                j += 1;
            }
            proof {
                if j < n {
                    assert(!is_word_char(w@[j as int]));
                    assert(dot_scan(w@, j as int, q_snap, name@, kws) == dot_tokens(q_snap, name@)
                        + sub_tok(
                        w@,
                        j as int,
                        Seq::empty(),
                        false,
                        Seq::empty(),
                        false,
                        Seq::empty(),
                        kws,
                    ));
                } else {
                    assert(dot_scan(w@, j as int, q_snap, name@, kws) == dot_tokens(
                        q_snap,
                        name@,
                    ));
                    assert(sub_tok(
                        w@,
                        j as int,
                        Seq::empty(),
                        false,
                        Seq::empty(),
                        false,
                        Seq::empty(),
                        kws,
                    ) =~= Seq::<TokenModel>::empty());
                    assert(dot_tokens(q_snap, name@) + Seq::<TokenModel>::empty() =~= dot_tokens(
                        q_snap,
                        name@,
                    ));
                }
            }
            let ghost resume = sub_tok(
                w@,
                j as int,
                Seq::empty(),
                false,
                Seq::empty(),
                false,
                Seq::empty(),
                kws,
            );
            if acc.len() == 0 || digits_only(&acc) {
                let mut lit: Vec<char> = Vec::new();
                append_chars(&mut lit, &acc);
                lit.push('.');
                append_chars(&mut lit, &name);
                let t = Token::NumericLiteral(chars_to_string(&lit));
                proof {
                    assert(lit@ =~= q_snap + seq!['.'] + name@);
                    assert(dot_tokens(q_snap, name@) =~= seq![t@]);
                    lemma_tm_assoc(tokens_view(out@), seq![t@], resume);
                }
                push_token(&mut out, t);
            } else if name.len() > 0 {
                let t = Token::QualifiedIdentifier {
                    qualifier: chars_to_string(&acc),
                    name: chars_to_string(&name),
                };
                proof {
                    assert(dot_tokens(q_snap, name@) =~= seq![t@]);
                    lemma_tm_assoc(tokens_view(out@), seq![t@], resume);
                }
                push_token(&mut out, t);
            } else {
                let t1 = Token::Identifier(chars_to_string(&acc));
                let t2 = Token::Punctuator('.');
                proof {
                    assert(dot_tokens(q_snap, name@) =~= seq![t1@, t2@]);
                    assert(seq![t1@] + seq![t2@] =~= seq![t1@, t2@]);
                    lemma_tm_assoc(tokens_view(out@), seq![t1@], seq![t2@] + resume);
                    lemma_tm_assoc(seq![t1@], seq![t2@], resume);
                    lemma_tm_assoc(tokens_view(out@) + seq![t1@], seq![t2@], resume);
                }
                push_token(&mut out, t1);
                push_token(&mut out, t2);
            }
            acc.clear();
            i = j;
        } else {
            let ghost rest = sub_tok(w@, i + 1, Seq::empty(), in_q, qc@, in_bt, bc@, kws);
            if acc.len() > 0 {
                let t = flush_token(&acc, vocab);
                proof {
                    lemma_tm_assoc(tokens_view(out@), seq![t@], other_char_tokens(w@[i as int])
                        + rest);
                }
                push_token(&mut out, t);
            } else {
                proof {
                    assert(flush_acc(acc@, kws) =~= Seq::<TokenModel>::empty());
                    assert(Seq::<TokenModel>::empty() + (other_char_tokens(w@[i as int]) + rest)
                        =~= other_char_tokens(w@[i as int]) + rest);
                }
            }
            acc.clear();
            if punct_char(c) {
                let t = Token::Punctuator(c);
                proof {
                    assert(other_char_tokens(w@[i as int]) =~= seq![t@]);
                    lemma_tm_assoc(tokens_view(out@), seq![t@], rest);
                }
                push_token(&mut out, t);
            } else if single_op_char(c) {
                let mut op: Vec<char> = Vec::new();
                op.push(c);
                let t = Token::Operator(chars_to_string(&op));
                proof {
                    assert(op@ =~= seq![c]);
                    assert(other_char_tokens(w@[i as int]) =~= seq![t@]);
                    lemma_tm_assoc(tokens_view(out@), seq![t@], rest);
                }
                push_token(&mut out, t);
            } else if !sql_ws(c) {
                let mut id: Vec<char> = Vec::new();
                id.push(c);
                let t = Token::Identifier(chars_to_string(&id));
                proof {
                    assert(id@ =~= seq![c]);
                    assert(other_char_tokens(w@[i as int]) =~= seq![t@]);
                    lemma_tm_assoc(tokens_view(out@), seq![t@], rest);
                }
                push_token(&mut out, t);
            } else {
                proof {
                    assert(other_char_tokens(w@[i as int]) =~= Seq::<TokenModel>::empty());
                    assert(Seq::<TokenModel>::empty() + rest =~= rest);
                }
            }
            i += 1;
        }
    }
    let ghost kws = vocab.kws();
    let ghost tail_end = sub_tok(w@, i as int, acc@, in_q, qc@, in_bt, bc@, kws);
    if acc.len() > 0 {
        let t = flush_token(&acc, vocab);
        proof {
            assert(tail_end == seq![t@] + (if in_bt && bc@.len() > 0 {
                seq![TokenModel::Identifier(bc@)]
            } else {
                Seq::<TokenModel>::empty()
            }));
            lemma_tm_assoc(tokens_view(out@), seq![t@], if in_bt && bc@.len() > 0 {
                seq![TokenModel::Identifier(bc@)]
            } else {
                Seq::<TokenModel>::empty()
            });
        }
        push_token(&mut out, t);
        acc.clear();
    } else {
        proof {
            assert(flush_acc(acc@, kws) =~= Seq::<TokenModel>::empty());
            assert(Seq::<TokenModel>::empty() + (if in_bt && bc@.len() > 0 {
                seq![TokenModel::Identifier(bc@)]
            } else {
                Seq::<TokenModel>::empty()
            }) =~= (if in_bt && bc@.len() > 0 {
                seq![TokenModel::Identifier(bc@)]
            } else {
                Seq::<TokenModel>::empty()
            }));
        }
    }
    if in_bt && bc.len() > 0 {
        let t = Token::Identifier(chars_to_string(&bc));
        push_token(&mut out, t);
    } else {
        proof {
            assert(tokens_view(out@) + Seq::<TokenModel>::empty() =~= tokens_view(out@));
        }
    }
    out
}

// ---------------------------------------------------------------------------
// Fragment splitting and word classification
// ---------------------------------------------------------------------------
/// Splitting off the head fragment.
proof fn lemma_frags_cons(f: Seq<char>, rest: Seq<Seq<char>>, kws: Seq<Seq<char>>)
    ensures
        sub_tok_frags(seq![f] + rest, kws) == sub_tok_word(f, kws) + sub_tok_frags(rest, kws),
{
    let whole = seq![f] + rest;
    assert(whole.len() > 0);
    assert(whole.first() == f);
    assert(whole.drop_first() =~= rest);
}

/// Splitting off the head word.
proof fn lemma_words_cons(w: Seq<char>, rest: Seq<Seq<char>>, kws: Seq<Seq<char>>, tys: Seq<
    Seq<char>,
>)
    ensures
        classify_words(seq![w] + rest, kws, tys) == classify_word(w, kws, tys) + classify_words(
            rest,
            kws,
            tys,
        ),
{
    let whole = seq![w] + rest;
    assert(whole.len() > 0);
    assert(whole.first() == w);
    assert(whole.drop_first() =~= rest);
}

/// The tokens of a word that fits no single classification: the word is
/// split around parentheses, commas and semicolons, and each fragment is
/// scanned by the character-level sub-tokenizer.
fn split_and_sub_tokenize(w: &Vec<char>, vocab: &Vocabulary) -> (r: Vec<Token>)
    ensures
        tokens_view(r@) == spec_parse_identifier(w@, vocab.kws()),
{
    let ghost kws = vocab.kws();
    let n: usize = w.len();
    let mut out: Vec<Token> = Vec::new();
    let mut cur: Vec<char> = Vec::new();
    let mut i: usize = 0;
    while i < n
        invariant
            0 <= i <= n,
            n == w@.len(),
            kws == vocab.kws(),
            spec_parse_identifier(w@, kws) == tokens_view(out@) + sub_tok_frags(
                frags_from(w@, i as int, cur@),
                kws,
            ),
        decreases n - i,
    {
        let c = w[i];
        if sql_ws(c) {
            if cur.len() > 0 {
                proof {
                    assert(frags_from(w@, i as int, cur@) == seq![cur@] + frags_from(
                        w@,
                        i + 1,
                        Seq::empty(),
                    ));
                    lemma_frags_cons(cur@, frags_from(w@, i + 1, Seq::empty()), kws);
                }
                let mut toks = sub_tokenize(&cur, vocab);
                let ghost toks_snap = toks@;
                proof {
                    lemma_tokens_view_concat(out@, toks_snap);
                    lemma_tm_assoc(tokens_view(out@), tokens_view(toks_snap), sub_tok_frags(
                        frags_from(w@, i + 1, Seq::empty()),
                        kws,
                    ));
                }
                out.append(&mut toks);
                cur.clear();
            } else {
                proof {
                    assert(frags_from(w@, i as int, cur@) == Seq::<Seq<char>>::empty()
                        + frags_from(w@, i + 1, Seq::empty()));
                    assert(Seq::<Seq<char>>::empty() + frags_from(w@, i + 1, Seq::empty())
                        =~= frags_from(w@, i + 1, Seq::empty()));
                }
                cur.clear();
            }
        } else if split_punct(c) {
            let ghost pre_frags = frags_from(w@, i + 1, Seq::empty());
            proof {
                if cur@.len() > 0 {
                    assert(frags_from(w@, i as int, cur@) == (seq![cur@] + seq![seq![c]])
                        + pre_frags);
                    assert((seq![cur@] + seq![seq![c]]) + pre_frags =~= seq![cur@] + (seq![
                        seq![c],
                    ] + pre_frags));
                    lemma_frags_cons(cur@, seq![seq![c]] + pre_frags, kws);
                    lemma_frags_cons(seq![c], pre_frags, kws);
                } else {
                    assert(frags_from(w@, i as int, cur@) == (Seq::<Seq<char>>::empty() + seq![
                        seq![c],
                    ]) + pre_frags);
                    assert((Seq::<Seq<char>>::empty() + seq![seq![c]]) + pre_frags =~= seq![
                        seq![c],
                    ] + pre_frags);
                    lemma_frags_cons(seq![c], pre_frags, kws);
                }
            }
            if cur.len() > 0 {
                let mut toks = sub_tokenize(&cur, vocab);
                let ghost toks_snap = toks@;
                proof {
                    lemma_tokens_view_concat(out@, toks_snap);
                    lemma_tm_assoc(tokens_view(out@), tokens_view(toks_snap), sub_tok_frags(
                        seq![seq![c]] + pre_frags,
                        kws,
                    ));
                }
                out.append(&mut toks);
                cur.clear();
            }
            let mut pv: Vec<char> = Vec::new();
            pv.push(c);
            proof {
                assert(pv@ =~= seq![c]);
            }
            let mut ptoks = sub_tokenize(&pv, vocab);
            let ghost ptoks_snap = ptoks@;
            proof {
                lemma_tokens_view_concat(out@, ptoks_snap);
                lemma_tm_assoc(tokens_view(out@), tokens_view(ptoks_snap), sub_tok_frags(
                    pre_frags,
                    kws,
                ));
            }
            out.append(&mut ptoks);
            proof {
                assert(spec_parse_identifier(w@, kws) == tokens_view(out@) + sub_tok_frags(
                    frags_from(w@, i + 1, Seq::empty()),
                    kws,
                ));
                assert(cur@ =~= Seq::<char>::empty());
            }
        } else {
            cur.push(c);
            proof {
                assert(spec_parse_identifier(w@, kws) == tokens_view(out@) + sub_tok_frags(
                    frags_from(w@, i + 1, cur@),
                    kws,
                ));
            }
        }
        i += 1;
    }
    if cur.len() > 0 {
        proof {
            assert(frags_from(w@, i as int, cur@) == seq![cur@]);
            assert(seq![cur@] =~= seq![cur@] + Seq::<Seq<char>>::empty());
            lemma_frags_cons(cur@, Seq::<Seq<char>>::empty(), kws);
            assert(sub_tok_frags(Seq::<Seq<char>>::empty(), kws) =~= Seq::<TokenModel>::empty());
        }
        let mut toks = sub_tokenize(&cur, vocab);
        let ghost toks_snap = toks@;
        proof {
            lemma_tokens_view_concat(out@, toks_snap);
            assert(sub_tok_word(cur@, kws) + Seq::<TokenModel>::empty() =~= sub_tok_word(
                cur@,
                kws,
            ));
            lemma_tm_assoc(tokens_view(out@), tokens_view(toks_snap), Seq::<TokenModel>::empty());
        }
        out.append(&mut toks);
    } else {
        proof {
            assert(sub_tok_frags(frags_from(w@, i as int, cur@), kws) =~= Seq::<
                TokenModel,
            >::empty());
            assert(tokens_view(out@) + Seq::<TokenModel>::empty() =~= tokens_view(out@));
        }
    }
    out
}

/// The classification of one word body, in the fixed priority order.
fn classify_body_exec(w: &Vec<char>, vocab: &Vocabulary) -> (r: Vec<Token>)
    requires
        w@.len() > 0,
    ensures
        tokens_view(r@) == classify_body(w@, vocab.kws(), vocab.tys()),
{
    let mut out: Vec<Token> = Vec::new();
    if let Some(t) = data_type_token(w, vocab) {
        proof {
            assert(tokens_view(out@.push(t)) =~= seq![t@]);
        }
        out.push(t);
        return out;
    }
    let up = upper_string(w);
    if vocab.has_keyword(&up) {
        let t = Token::Keyword(chars_to_string(w));
        proof {
            assert(tokens_view(out@.push(t)) =~= seq![t@]);
        }
        out.push(t);
        return out;
    }
    if digits_only(w) {
        let t = Token::NumericLiteral(chars_to_string(w));
        proof {
            assert(tokens_view(out@.push(t)) =~= seq![t@]);
        }
        out.push(t);
        return out;
    }
    let n: usize = w.len();
    if n >= 2 && w[0] == '\'' && w[n - 1] == '\'' {
        let mut inner: Vec<char> = Vec::new();
        let mut i: usize = 1;
        while i < n - 1
            invariant
                1 <= i <= n - 1,
                n == w@.len(),
                inner@ == w@.subrange(1, i as int),
            decreases n - i,
        {
            inner.push(w[i]);
            proof {
                assert(inner@ =~= w@.subrange(1, i + 1 as int));
            }
            i += 1;
        }
        let mut p1: Vec<char> = Vec::new();
        p1.push('_');
        p1.push('_');
        p1.push('_');
        let mut r1: Vec<char> = Vec::new();
        r1.push(' ');
        let mut p2: Vec<char> = Vec::new();
        p2.push('\'');
        p2.push('\'');
        let mut r2: Vec<char> = Vec::new();
        r2.push('\'');
        let mut p3: Vec<char> = Vec::new();
        p3.push('-');
        p3.push('-');
        p3.push('-');
        let mut r3: Vec<char> = Vec::new();
        r3.push(',');
        proof {
            assert(p1@ =~= seq!['_', '_', '_']);
            assert(r1@ =~= seq![' ']);
            assert(p2@ =~= seq!['\'', '\'']);
            assert(r2@ =~= seq!['\'']);
            assert(p3@ =~= seq!['-', '-', '-']);
            assert(r3@ =~= seq![',']);
        }
        let s1 = replace_chars(&inner, &p1, &r1);
        let s2 = replace_chars(&s1, &p2, &r2);
        let s3 = replace_chars(&s2, &p3, &r3);
        let t = Token::StringLiteral(chars_to_string(&s3));
        proof {
            assert(s3@ == restore_literal(w@.subrange(1, w@.len() - 1)));
            assert(tokens_view(out@.push(t)) =~= seq![t@]);
        }
        out.push(t);
        return out;
    }
    if op_sym(w) {
        let t = Token::Operator(chars_to_string(w));
        proof {
            assert(tokens_view(out@.push(t)) =~= seq![t@]);
        }
        out.push(t);
        return out;
    }
    if n == 1 && punct_char(w[0]) {
        let t = Token::Punctuator(w[0]);
        proof {
            assert(tokens_view(out@.push(t)) =~= seq![t@]);
        }
        out.push(t);
        return out;
    }
    if n >= 2 && w[0] == '`' && w[n - 1] == '`' {
        let mut inner: Vec<char> = Vec::new();
        let mut i: usize = 1;
        while i < n - 1
            invariant
                1 <= i <= n - 1,
                n == w@.len(),
                inner@ == w@.subrange(1, i as int),
            decreases n - i,
        {
            inner.push(w[i]);
            proof {
                assert(inner@ =~= w@.subrange(1, i + 1 as int));
            }
            i += 1;
        }
        let t = Token::Identifier(chars_to_string(&inner));
        proof {
            assert(tokens_view(out@.push(t)) =~= seq![t@]);
        }
        out.push(t);
        return out;
    }
    split_and_sub_tokenize(w, vocab)
}

/// The classification of one whitespace-separated word: a trailing comma or
/// semicolon is split off, the remainder classified.
fn classify_word_exec(w: &Vec<char>, vocab: &Vocabulary) -> (r: Vec<Token>)
    ensures
        tokens_view(r@) == classify_word(w@, vocab.kws(), vocab.tys()),
{
    let n: usize = w.len();
    let has_tail = n > 0 && {
        let c = w[n - 1];
        c == ',' || c == ';'
    };
    if has_tail {
        let tail_tok = Token::Punctuator(w[n - 1]);
        let mut body: Vec<char> = Vec::new();
        let mut i: usize = 0;
        while i < n - 1
            invariant
                0 <= i <= n - 1,
                n == w@.len(),
                body@ == w@.subrange(0, i as int),
            decreases n - i,
        {
            body.push(w[i]);
            proof {
                assert(body@ =~= w@.subrange(0, i + 1 as int));
            }
            i += 1;
        }
        proof {
            assert(body@ =~= w@.drop_last());
        }
        if body.len() == 0 {
            let mut out: Vec<Token> = Vec::new();
            proof {
                assert(tokens_view(out@.push(tail_tok)) =~= seq![tail_tok@]);
            }
            out.push(tail_tok);
            out
        } else {
            let mut out = classify_body_exec(&body, vocab);
            proof {
                lemma_tokens_view_push(out@, tail_tok);
            }
            out.push(tail_tok);
            out
        }
    } else {
        if n == 0 {
            let out: Vec<Token> = Vec::new();
            proof {
                assert(tokens_view(out@) =~= Seq::<TokenModel>::empty());
            }
            out
        } else {
            let out = classify_body_exec(w, vocab);
            proof {
                assert(classify_body(w@, vocab.kws(), vocab.tys()) + Seq::<TokenModel>::empty()
                    =~= classify_body(w@, vocab.kws(), vocab.tys()));
            }
            out
        }
    }
}

// ---------------------------------------------------------------------------
// The tokenizer
// ---------------------------------------------------------------------------
/// The tokenizer against an arbitrary vocabulary.
pub fn tokenize_with(input: &str, vocab: &Vocabulary) -> (r: Vec<Token>)
    ensures
        tokens_view(r@) == spec_tokenize(input@, vocab.kws(), vocab.tys()),
{
    let ghost kws = vocab.kws();
    let ghost tys = vocab.tys();
    let raw = str_to_chars(input);
    let p = preprocess_chars(&raw);
    let n: usize = p.len();
    let mut out: Vec<Token> = Vec::new();
    let mut cur: Vec<char> = Vec::new();
    let mut i: usize = 0;
    while i < n
        invariant
            0 <= i <= n,
            n == p@.len(),
            kws == vocab.kws(),
            tys == vocab.tys(),
            p@ == spec_preprocess(input@),
            spec_tokenize(input@, kws, tys) == tokens_view(out@) + classify_words(
                words_from(p@, i as int, cur@),
                kws,
                tys,
            ),
        decreases n - i,
    {
        let c = p[i];
        if sql_ws(c) {
            if cur.len() > 0 {
                proof {
                    assert(words_from(p@, i as int, cur@) == seq![cur@] + words_from(
                        p@,
                        i + 1,
                        Seq::empty(),
                    ));
                    lemma_words_cons(cur@, words_from(p@, i + 1, Seq::empty()), kws, tys);
                }
                let mut toks = classify_word_exec(&cur, vocab);
                let ghost toks_snap = toks@;
                proof {
                    lemma_tokens_view_concat(out@, toks_snap);
                    lemma_tm_assoc(tokens_view(out@), tokens_view(toks_snap), classify_words(
                        words_from(p@, i + 1, Seq::empty()),
                        kws,
                        tys,
                    ));
                }
                out.append(&mut toks);
                cur.clear();
            } else {
                proof {
                    assert(words_from(p@, i as int, cur@) == Seq::<Seq<char>>::empty()
                        + words_from(p@, i + 1, Seq::empty()));
                    assert(Seq::<Seq<char>>::empty() + words_from(p@, i + 1, Seq::empty())
                        =~= words_from(p@, i + 1, Seq::empty()));
                }
                cur.clear();
            }
        } else {
            cur.push(c);
        }
        i += 1;
    }
    if cur.len() > 0 {
        proof {
            assert(words_from(p@, i as int, cur@) == seq![cur@]);
            assert(seq![cur@] =~= seq![cur@] + Seq::<Seq<char>>::empty());
            lemma_words_cons(cur@, Seq::<Seq<char>>::empty(), kws, tys);
            assert(classify_words(Seq::<Seq<char>>::empty(), kws, tys) =~= Seq::<
                TokenModel,
            >::empty());
        }
        let mut toks = classify_word_exec(&cur, vocab);
        let ghost toks_snap = toks@;
        proof {
            lemma_tokens_view_concat(out@, toks_snap);
            assert(classify_word(cur@, kws, tys) + Seq::<TokenModel>::empty() =~= classify_word(
                cur@,
                kws,
                tys,
            ));
            lemma_tm_assoc(tokens_view(out@), tokens_view(toks_snap), Seq::<TokenModel>::empty());
        }
        out.append(&mut toks);
    } else {
        proof {
            assert(classify_words(words_from(p@, i as int, cur@), kws, tys) =~= Seq::<
                TokenModel,
            >::empty());
            assert(tokens_view(out@) + Seq::<TokenModel>::empty() =~= tokens_view(out@));
        }
    }
    out
}

/// The tokenizer against the standard vocabulary. It never fails:
/// unrecognized fragments degrade to identifiers.
pub fn tokenize(input: &str) -> (r: Vec<Token>)
    ensures
        tokens_view(r@) == spec_tokenize(input@, std_keywords(), std_types()),
{
    let vocab = Vocabulary::standard();
    tokenize_with(input, &vocab)
}

/// The sub-tokenization of one unclassified word against the standard
/// vocabulary: the word is split around punctuators and each fragment is
/// scanned character by character.
pub fn parse_identifier(word: &str) -> (r: Vec<Token>)
    ensures
        tokens_view(r@) == spec_parse_identifier(word@, std_keywords()),
{
    let vocab = Vocabulary::standard();
    let w = str_to_chars(word);
    split_and_sub_tokenize(&w, &vocab)
}

/// The character-level scan of a single fragment against the standard
/// vocabulary.
pub fn parse_single_identifier(identifier: &str) -> (r: Vec<Token>)
    ensures
        tokens_view(r@) == sub_tok_word(identifier@, std_keywords()),
{
    let vocab = Vocabulary::standard();
    let w = str_to_chars(identifier);
    sub_tokenize(&w, &vocab)
}

} // verus!
