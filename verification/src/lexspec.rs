//! The specification of the lexer.
//!
//! These spec functions define, over character sequences, exactly what the
//! executable tokenizer produces: the preprocessing pipeline (comment
//! stripping, whitespace normalization, quote masking), whitespace word
//! splitting, word classification, and the character-level sub-tokenizer
//! for words that no single classification fits.
//!
//! Whitespace and case folding are ASCII; see `chars`.

use vstd::prelude::*;
use crate::chars::{all_digits, is_sql_ws, is_word_char, upper_seq};
use crate::strutil::replace_all;
use crate::token::TokenModel;

verus! {

// ---------------------------------------------------------------------------
// Character sets of the token grammar
// ---------------------------------------------------------------------------
/// The punctuator characters: comma, semicolon, parentheses, dot.
pub open spec fn is_punct_char(c: char) -> bool {
    c == ',' || c == ';' || c == '(' || c == ')' || c == '.'
}

/// The punctuators around which an unclassified word is split before
/// sub-tokenization.
pub open spec fn is_split_punct(c: char) -> bool {
    c == '(' || c == ')' || c == ',' || c == ';'
}

/// The single-character operator symbols.
pub open spec fn is_single_op_char(c: char) -> bool {
    c == '=' || c == '<' || c == '>' || c == '+' || c == '-' || c == '*' || c == '/' || c == '%'
}

/// The operator symbols: `=`, `<`, `>`, `<=`, `>=`, `!=`, `+`, `-`, `*`,
/// `/`, `%`.
pub open spec fn is_op_sym(w: Seq<char>) -> bool {
    ||| (w.len() == 1 && is_single_op_char(w[0]))
    ||| (w.len() == 2 && w[1] == '=' && (w[0] == '<' || w[0] == '>' || w[0] == '!'))
}

// ---------------------------------------------------------------------------
// Preprocessing pipeline
// ---------------------------------------------------------------------------
/// Whether a block comment closer `*/` stands at index `k`.
pub open spec fn close_at(s: Seq<char>, k: int) -> bool {
    0 <= k && k + 1 < s.len() && s[k] == '*' && s[k + 1] == '/'
}

/// Whether some block comment closer `*/` occurs at or after `j`.
pub open spec fn has_block_close(s: Seq<char>, j: int) -> bool {
    exists|k: int| j <= k && #[trigger] close_at(s, k)
}

/// Block comments (`/* ... */`, shortest match, newlines included) removed,
/// scanning from index `i`. An unterminated `/*` is left in place.
pub open spec fn strip_block_from(s: Seq<char>, i: int) -> Seq<char>
    decreases s.len() - i, 0int,
    when 0 <= i
{
    if i >= s.len() {
        Seq::empty()
    } else if s[i] == '/' && i + 1 < s.len() && s[i + 1] == '*' && has_block_close(s, i + 2) {
        consume_block(s, i + 2)
    } else {
        seq![s[i]] + strip_block_from(s, i + 1)
    }
}

/// Scans forward inside a block comment known to be terminated; resumes
/// normal stripping after the closing `*/`.
pub open spec fn consume_block(s: Seq<char>, j: int) -> Seq<char>
    decreases s.len() - j, 1int,
    when 0 <= j
{
    if j >= s.len() {
        Seq::empty()
    } else if j + 1 < s.len() && s[j] == '*' && s[j + 1] == '/' {
        strip_block_from(s, j + 2)
    } else {
        consume_block(s, j + 1)
    }
}

/// Line comments (`--` to end of line) removed, scanning from index `i`.
/// The line's terminating newline is kept.
pub open spec fn strip_line_from(s: Seq<char>, i: int) -> Seq<char>
    decreases s.len() - i, 0int,
    when 0 <= i
{
    if i >= s.len() {
        Seq::empty()
    } else if s[i] == '-' && i + 1 < s.len() && s[i + 1] == '-' {
        consume_line(s, i + 2)
    } else {
        seq![s[i]] + strip_line_from(s, i + 1)
    }
}

/// Scans forward inside a line comment; resumes at the newline, which is
/// kept.
pub open spec fn consume_line(s: Seq<char>, j: int) -> Seq<char>
    decreases s.len() - j, 1int,
    when 0 <= j
{
    if j >= s.len() {
        Seq::empty()
    } else if s[j] == '\n' {
        seq!['\n'] + strip_line_from(s, j + 1)
    } else {
        consume_line(s, j + 1)
    }
}

/// Newlines replaced by spaces.
pub open spec fn nl_to_space(s: Seq<char>) -> Seq<char> {
    s.map_values(|c: char| if c == '\n' { ' ' } else { c })
}

/// Runs of whitespace collapsed to a single space. `prev_ws` records whether
/// the previous character was whitespace.
pub open spec fn collapse_from(s: Seq<char>, i: int, prev_ws: bool) -> Seq<char>
    decreases s.len() - i,
    when 0 <= i
{
    if i >= s.len() {
        Seq::empty()
    } else if is_sql_ws(s[i]) {
        (if prev_ws {
            Seq::empty()
        } else {
            seq![' ']
        }) + collapse_from(s, i + 1, true)
    } else {
        seq![s[i]] + collapse_from(s, i + 1, false)
    }
}

/// Leading spaces removed.
pub open spec fn trim_front(s: Seq<char>) -> Seq<char>
    decreases s.len(),
{
    if s.len() > 0 && s[0] == ' ' {
        trim_front(s.skip(1))
    } else {
        s
    }
}

/// Trailing spaces removed.
pub open spec fn trim_back(s: Seq<char>) -> Seq<char>
    decreases s.len(),
{
    if s.len() > 0 && s.last() == ' ' {
        trim_back(s.drop_last())
    } else {
        s
    }
}

/// Each leftmost run of three single quotes normalized to one quote.
pub open spec fn triple_from(s: Seq<char>, i: int) -> Seq<char>
    decreases s.len() - i,
    when 0 <= i
{
    if i >= s.len() {
        Seq::empty()
    } else if s[i] == '\'' && i + 2 < s.len() && s[i + 1] == '\'' && s[i + 2] == '\'' {
        seq!['\''] + triple_from(s, i + 3)
    } else {
        seq![s[i]] + triple_from(s, i + 1)
    }
}

/// The masking pass: inside single quotes, spaces become the sentinel `___`
/// and commas the sentinel `---`, so that whitespace word splitting leaves
/// quoted literals whole. `in_q` is the quote parity at index `i`.
pub open spec fn mask_from(s: Seq<char>, i: int, in_q: bool) -> Seq<char>
    decreases s.len() - i,
    when 0 <= i
{
    if i >= s.len() {
        Seq::empty()
    } else if s[i] == '\'' {
        seq!['\''] + mask_from(s, i + 1, !in_q)
    } else if s[i] == ' ' && in_q {
        seq!['_', '_', '_'] + mask_from(s, i + 1, in_q)
    } else if s[i] == ',' && in_q {
        seq!['-', '-', '-'] + mask_from(s, i + 1, in_q)
    } else {
        seq![s[i]] + mask_from(s, i + 1, in_q)
    }
}

/// The whole preprocessing pipeline: strip block comments, strip line
/// comments, replace newlines by spaces, collapse whitespace runs, trim,
/// normalize triple quotes, then mask quoted spaces and commas.
pub open spec fn spec_preprocess(s: Seq<char>) -> Seq<char> {
    let a = strip_block_from(s, 0);
    let b = strip_line_from(a, 0);
    let c = nl_to_space(b);
    let d = trim_back(trim_front(collapse_from(c, 0, false)));
    let e = triple_from(d, 0);
    mask_from(e, 0, false)
}

// ---------------------------------------------------------------------------
// Word splitting
// ---------------------------------------------------------------------------
/// The whitespace-separated words of `s` from index `i`, with `cur` the word
/// accumulated so far.
pub open spec fn words_from(s: Seq<char>, i: int, cur: Seq<char>) -> Seq<Seq<char>>
    decreases s.len() - i,
    when 0 <= i
{
    if i >= s.len() {
        if cur.len() > 0 {
            seq![cur]
        } else {
            Seq::empty()
        }
    } else if is_sql_ws(s[i]) {
        (if cur.len() > 0 {
            seq![cur]
        } else {
            Seq::empty()
        }) + words_from(s, i + 1, Seq::empty())
    } else {
        words_from(s, i + 1, cur.push(s[i]))
    }
}

/// The whitespace-separated words of `s`.
pub open spec fn split_words(s: Seq<char>) -> Seq<Seq<char>> {
    words_from(s, 0, Seq::empty())
}

// ---------------------------------------------------------------------------
// The character-level sub-tokenizer
// ---------------------------------------------------------------------------
/// Classification of a flushed accumulator: keyword if its upper-case form
/// is in the keyword vocabulary, numeric literal if all digits, identifier
/// otherwise.
pub open spec fn classify_acc(a: Seq<char>, kws: Seq<Seq<char>>) -> TokenModel {
    if kw_in(kws, upper_seq(a)) {
        TokenModel::Keyword(a)
    } else if all_digits(a) {
        TokenModel::NumericLiteral(a)
    } else {
        TokenModel::Identifier(a)
    }
}

/// Membership of a word in a vocabulary of words.
pub open spec fn kw_in(kws: Seq<Seq<char>>, w: Seq<char>) -> bool {
    exists|k: int| 0 <= k < kws.len() && kws[k] == w
}

/// A non-empty accumulator flushed as one token; an empty one flushes to
/// nothing.
pub open spec fn flush_acc(a: Seq<char>, kws: Seq<Seq<char>>) -> Seq<TokenModel> {
    if a.len() > 0 {
        seq![classify_acc(a, kws)]
    } else {
        Seq::empty()
    }
}

/// A character outside every other class: a punctuator or single-character
/// operator token, a one-character identifier for anything else visible, and
/// nothing for whitespace.
pub open spec fn other_char_tokens(c: char) -> Seq<TokenModel> {
    if is_punct_char(c) {
        seq![TokenModel::Punctuator(c)]
    } else if is_single_op_char(c) {
        seq![TokenModel::Operator(seq![c])]
    } else if !is_sql_ws(c) {
        seq![TokenModel::Identifier(seq![c])]
    } else {
        Seq::empty()
    }
}

/// What a qualifier-dot-name scan emits: a float-form numeric literal when
/// the qualifier is empty or numeric, a qualified identifier when a name
/// followed, and the qualifier plus a lone dot punctuator otherwise.
pub open spec fn dot_tokens(q: Seq<char>, name: Seq<char>) -> Seq<TokenModel> {
    if q.len() == 0 || all_digits(q) {
        seq![TokenModel::NumericLiteral(q + seq!['.'] + name)]
    } else if name.len() > 0 {
        seq![TokenModel::QualifiedIdentifier { qualifier: q, name: name }]
    } else {
        seq![TokenModel::Identifier(q), TokenModel::Punctuator('.')]
    }
}

/// The sub-tokenizer: a character-by-character scan with an accumulator
/// `acc`, single-quote state (`in_q`, content `qc`) and backtick state
/// (`in_bt`, content `bc`). At end of input the accumulator is flushed and
/// unterminated backtick content becomes an identifier; unterminated quote
/// content is dropped.
pub open spec fn sub_tok(
    s: Seq<char>,
    i: int,
    acc: Seq<char>,
    in_q: bool,
    qc: Seq<char>,
    in_bt: bool,
    bc: Seq<char>,
    kws: Seq<Seq<char>>,
) -> Seq<TokenModel>
    decreases s.len() - i, 0int,
    when 0 <= i
{
    if i >= s.len() {
        flush_acc(acc, kws) + (if in_bt && bc.len() > 0 {
            seq![TokenModel::Identifier(bc)]
        } else {
            Seq::empty()
        })
    } else {
        let c = s[i];
        if c == '\'' {
            if in_q {
                seq![TokenModel::StringLiteral(qc)] + sub_tok(
                    s,
                    i + 1,
                    acc,
                    false,
                    Seq::empty(),
                    in_bt,
                    bc,
                    kws,
                )
            } else {
                flush_acc(acc, kws) + sub_tok(s, i + 1, Seq::empty(), true, qc, in_bt, bc, kws)
            }
        } else if in_q {
            sub_tok(s, i + 1, acc, in_q, qc.push(c), in_bt, bc, kws)
        } else if c == '`' {
            if in_bt {
                seq![TokenModel::Identifier(bc)] + sub_tok(
                    s,
                    i + 1,
                    acc,
                    in_q,
                    qc,
                    false,
                    Seq::empty(),
                    kws,
                )
            } else {
                flush_acc(acc, kws) + sub_tok(s, i + 1, Seq::empty(), in_q, qc, true, bc, kws)
            }
        } else if in_bt {
            sub_tok(s, i + 1, acc, in_q, qc, in_bt, bc.push(c), kws)
        } else if is_word_char(c) {
            sub_tok(s, i + 1, acc.push(c), in_q, qc, in_bt, bc, kws)
        } else if c == '.' {
            dot_scan(s, i + 1, acc, Seq::empty(), kws)
        } else {
            flush_acc(acc, kws) + other_char_tokens(c) + sub_tok(
                s,
                i + 1,
                Seq::empty(),
                in_q,
                qc,
                in_bt,
                bc,
                kws,
            )
        }
    }
}

/// After a dot: the run of word characters following it is collected as the
/// name; the scan then emits `dot_tokens` and resumes in the initial state.
pub open spec fn dot_scan(
    s: Seq<char>,
    j: int,
    q: Seq<char>,
    name: Seq<char>,
    kws: Seq<Seq<char>>,
) -> Seq<TokenModel>
    decreases s.len() - j, 1int,
    when 0 <= j
{
    if j >= s.len() {
        dot_tokens(q, name)
    } else if is_word_char(s[j]) {
        dot_scan(s, j + 1, q, name.push(s[j]), kws)
    } else {
        dot_tokens(q, name) + sub_tok(
            s,
            j,
            Seq::empty(),
            false,
            Seq::empty(),
            false,
            Seq::empty(),
            kws,
        )
    }
}

/// The sub-tokenization of one word in the initial state.
pub open spec fn sub_tok_word(w: Seq<char>, kws: Seq<Seq<char>>) -> Seq<TokenModel> {
    sub_tok(w, 0, Seq::empty(), false, Seq::empty(), false, Seq::empty(), kws)
}

// ---------------------------------------------------------------------------
// Fragment splitting for unclassified words
// ---------------------------------------------------------------------------
/// A word split around `(`, `)`, `,`, `;` (each a fragment of its own) and
/// whitespace, from index `i`, with `cur` the fragment accumulated so far.
pub open spec fn frags_from(s: Seq<char>, i: int, cur: Seq<char>) -> Seq<Seq<char>>
    decreases s.len() - i,
    when 0 <= i
{
    if i >= s.len() {
        if cur.len() > 0 {
            seq![cur]
        } else {
            Seq::empty()
        }
    } else if is_sql_ws(s[i]) {
        (if cur.len() > 0 {
            seq![cur]
        } else {
            Seq::empty()
        }) + frags_from(s, i + 1, Seq::empty())
    } else if is_split_punct(s[i]) {
        (if cur.len() > 0 {
            seq![cur]
        } else {
            Seq::empty()
        }) + seq![seq![s[i]]] + frags_from(s, i + 1, Seq::empty())
    } else {
        frags_from(s, i + 1, cur.push(s[i]))
    }
}

/// The sub-tokenizations of a list of fragments, concatenated.
pub open spec fn sub_tok_frags(fs: Seq<Seq<char>>, kws: Seq<Seq<char>>) -> Seq<TokenModel>
    decreases fs.len(),
{
    if fs.len() == 0 {
        Seq::empty()
    } else {
        sub_tok_word(fs.first(), kws) + sub_tok_frags(fs.drop_first(), kws)
    }
}

/// The sub-tokenization of an unclassified word: split into fragments, each
/// fragment scanned by the sub-tokenizer.
pub open spec fn spec_parse_identifier(w: Seq<char>, kws: Seq<Seq<char>>) -> Seq<TokenModel> {
    sub_tok_frags(frags_from(w, 0, Seq::empty()), kws)
}

// ---------------------------------------------------------------------------
// Word classification
// ---------------------------------------------------------------------------
/// The index of the first `(` in `w`, if any.
pub open spec fn find_open_paren(w: Seq<char>, j: int) -> Option<int>
    decreases w.len() - j,
    when 0 <= j
{
    if j >= w.len() {
        None
    } else if w[j] == '(' {
        Some(j)
    } else {
        find_open_paren(w, j + 1)
    }
}

/// Recognition of a data-type word: either a bare recognized type name, or
/// `name(length)` where `name` is recognized; the parenthesized length may
/// be empty.
pub open spec fn data_type_of(w: Seq<char>, tys: Seq<Seq<char>>) -> Option<TokenModel> {
    if kw_in(tys, upper_seq(w)) {
        Some(TokenModel::DataType { name: w, length: None })
    } else if find_open_paren(w, 0) is Some {
        let start = find_open_paren(w, 0)->Some_0;
        if w.len() > 0 && w.last() == ')' && kw_in(tys, upper_seq(w.subrange(0, start))) {
            let inside = w.subrange(start + 1, w.len() - 1);
            Some(
                TokenModel::DataType {
                    name: w.subrange(0, start),
                    length: if inside.len() == 0 {
                        None
                    } else {
                        Some(inside)
                    },
                },
            )
        } else {
            None
        }
    } else {
        None
    }
}

/// A quoted literal's content restored: the space sentinel undone, doubled
/// single quotes collapsed to one, the comma sentinel undone, in that order.
pub open spec fn restore_literal(inner: Seq<char>) -> Seq<char> {
    replace_all(
        replace_all(replace_all(inner, seq!['_', '_', '_'], seq![' ']), seq!['\'', '\''], seq!['\'']),
        seq!['-', '-', '-'],
        seq![','],
    )
}

/// Classification of a non-empty word body, in priority order: data type,
/// keyword, numeric literal, quoted string literal, operator, punctuator,
/// backtick-quoted identifier, and finally the character-level
/// sub-tokenizer.
pub open spec fn classify_body(w: Seq<char>, kws: Seq<Seq<char>>, tys: Seq<Seq<char>>) -> Seq<
    TokenModel,
> {
    if data_type_of(w, tys) is Some {
        seq![data_type_of(w, tys)->Some_0]
    } else if kw_in(kws, upper_seq(w)) {
        seq![TokenModel::Keyword(w)]
    } else if all_digits(w) {
        seq![TokenModel::NumericLiteral(w)]
    } else if w.len() >= 2 && w[0] == '\'' && w.last() == '\'' {
        seq![TokenModel::StringLiteral(restore_literal(w.subrange(1, w.len() - 1)))]
    } else if is_op_sym(w) {
        seq![TokenModel::Operator(w)]
    } else if w.len() == 1 && is_punct_char(w[0]) {
        seq![TokenModel::Punctuator(w[0])]
    } else if w.len() >= 2 && w[0] == '`' && w.last() == '`' {
        seq![TokenModel::Identifier(w.subrange(1, w.len() - 1))]
    } else {
        spec_parse_identifier(w, kws)
    }
}

/// Classification of one whitespace-separated word: a trailing comma or
/// semicolon is split off as a punctuator, and the remainder, if any, is
/// classified as a body.
pub open spec fn classify_word(w: Seq<char>, kws: Seq<Seq<char>>, tys: Seq<Seq<char>>) -> Seq<
    TokenModel,
> {
    let has_tail = w.len() > 0 && (w.last() == ',' || w.last() == ';');
    let body = if has_tail {
        w.drop_last()
    } else {
        w
    };
    let tail: Seq<TokenModel> = if has_tail {
        seq![TokenModel::Punctuator(w.last())]
    } else {
        Seq::empty()
    };
    if body.len() == 0 {
        tail
    } else {
        classify_body(body, kws, tys) + tail
    }
}

/// The classifications of a list of words, concatenated.
pub open spec fn classify_words(ws: Seq<Seq<char>>, kws: Seq<Seq<char>>, tys: Seq<Seq<char>>) -> Seq<
    TokenModel,
>
    decreases ws.len(),
{
    if ws.len() == 0 {
        Seq::empty()
    } else {
        classify_word(ws.first(), kws, tys) + classify_words(ws.drop_first(), kws, tys)
    }
}

/// The complete lexer: preprocess, split into words, classify each word.
pub open spec fn spec_tokenize(s: Seq<char>, kws: Seq<Seq<char>>, tys: Seq<Seq<char>>) -> Seq<
    TokenModel,
> {
    classify_words(split_words(spec_preprocess(s)), kws, tys)
}

} // verus!
