//! Laws of the lexer, proved against the specification in `lexspec`.
//!
//! The two public proof functions state global guarantees of the
//! preprocessing and tokenization pipeline: quoted string literals survive
//! the sentinel masking round trip, and the preprocessed form is a stable
//! fixed point of preprocessing.

use vstd::prelude::*;
use crate::chars::{is_digit, is_sql_ws, upper_char, upper_seq};
use crate::lexspec::{
    classify_body, classify_word, classify_words, collapse_from, data_type_of, find_open_paren,
    has_block_close, kw_in, mask_from, nl_to_space, spec_preprocess, spec_tokenize, split_words,
    strip_block_from, strip_line_from, trim_back, trim_front, triple_from, words_from,
};
use crate::strutil::{contains_at, replace_all};
use crate::token::TokenModel;
use crate::vocab::{lemma_std_vocab_no_quote, no_quote_entries, std_keywords, std_types};

verus! {

// ---------------------------------------------------------------------------
// Shape predicates over preprocessed text
// ---------------------------------------------------------------------------
/// Every whitespace character is a plain space.
pub open spec fn ws_normal(s: Seq<char>) -> bool {
    forall|i: int| 0 <= i < s.len() ==> (is_sql_ws(#[trigger] s[i]) ==> s[i] == ' ')
}

/// No two adjacent spaces.
pub open spec fn no_double_space(s: Seq<char>) -> bool {
    forall|i: int| 0 <= i < s.len() - 1 ==> !(#[trigger] s[i] == ' ' && s[i + 1] == ' ')
}

/// Neither end is a space.
pub open spec fn no_edge_space(s: Seq<char>) -> bool {
    s.len() == 0 || (s[0] != ' ' && s.last() != ' ')
}

/// No block comment opener `/*` that a closer `*/` would terminate.
pub open spec fn no_closed_block_comment(s: Seq<char>) -> bool {
    forall|i: int|
        0 <= i < s.len() - 1 ==> !(#[trigger] s[i] == '/' && s[i + 1] == '*' && has_block_close(
            s,
            i + 2,
        ))
}

/// No line comment introducer `--`.
pub open spec fn no_line_comment(s: Seq<char>) -> bool {
    forall|i: int| 0 <= i < s.len() - 1 ==> !(#[trigger] s[i] == '-' && s[i + 1] == '-')
}

/// No triple quote.
pub open spec fn no_triple_quote(s: Seq<char>) -> bool {
    forall|i: int|
        0 <= i < s.len() - 2 ==> !(#[trigger] s[i] == '\'' && s[i + 1] == '\'' && s[i + 2] == '\'')
}

/// The masking pass from index `i` with quote parity `in_q` finds nothing
/// to mask: no quoted space or comma.
pub open spec fn mask_done(s: Seq<char>, i: int, in_q: bool) -> bool
    decreases s.len() - i,
    when 0 <= i
{
    if i >= s.len() {
        true
    } else if s[i] == '\'' {
        mask_done(s, i + 1, !in_q)
    } else {
        (in_q ==> (s[i] != ' ' && s[i] != ',')) && mask_done(s, i + 1, in_q)
    }
}

// ---------------------------------------------------------------------------
// Identity of the stages on already-normalized text
// ---------------------------------------------------------------------------
/// Block-comment stripping is the identity without a closed block comment.
pub proof fn lemma_strip_block_id(s: Seq<char>, i: int)
    requires
        0 <= i <= s.len(),
        no_closed_block_comment(s),
    ensures
        strip_block_from(s, i) == s.skip(i),
    decreases s.len() - i,
{
    if i >= s.len() {
        assert(s.skip(i) =~= Seq::<char>::empty());
    } else {
        lemma_strip_block_id(s, i + 1);
        assert(seq![s[i]] + s.skip(i + 1) =~= s.skip(i));
    }
}

/// Line-comment stripping is the identity without `--`.
pub proof fn lemma_strip_line_id(s: Seq<char>, i: int)
    requires
        0 <= i <= s.len(),
        no_line_comment(s),
    ensures
        strip_line_from(s, i) == s.skip(i),
    decreases s.len() - i,
{
    if i >= s.len() {
        assert(s.skip(i) =~= Seq::<char>::empty());
    } else {
        lemma_strip_line_id(s, i + 1);
        assert(seq![s[i]] + s.skip(i + 1) =~= s.skip(i));
    }
}

/// Newline replacement is the identity on whitespace-normalized text.
pub proof fn lemma_nl_id(s: Seq<char>)
    requires
        ws_normal(s),
    ensures
        nl_to_space(s) == s,
{
    assert(nl_to_space(s) =~= s);
}

/// Whitespace collapsing is the identity on text whose whitespace is
/// single spaces. The second conclusion drives the induction past a space.
pub proof fn lemma_collapse_id(s: Seq<char>, i: int)
    requires
        0 <= i <= s.len(),
        ws_normal(s),
        no_double_space(s),
    ensures
        collapse_from(s, i, false) == s.skip(i),
        i >= s.len() || s[i] != ' ' ==> collapse_from(s, i, true) == s.skip(i),
    decreases s.len() - i,
{
    if i >= s.len() {
        assert(s.skip(i) =~= Seq::<char>::empty());
    } else {
        lemma_collapse_id(s, i + 1);
        if is_sql_ws(s[i]) {
            assert(s[i] == ' ');
            assert(i + 1 >= s.len() || s[i + 1] != ' ');
            assert(collapse_from(s, i, false) == seq![' '] + collapse_from(s, i + 1, true));
            assert(seq![' '] + s.skip(i + 1) =~= s.skip(i));
        } else {
            assert(seq![s[i]] + s.skip(i + 1) =~= s.skip(i));
        }
    }
}

/// Trimming is the identity on text with no space at either end.
pub proof fn lemma_trim_id(s: Seq<char>)
    requires
        no_edge_space(s),
    ensures
        trim_front(s) == s,
        trim_back(s) == s,
{
}

/// Triple-quote normalization is the identity without a triple quote.
pub proof fn lemma_triple_id(s: Seq<char>, i: int)
    requires
        0 <= i <= s.len(),
        no_triple_quote(s),
    ensures
        triple_from(s, i) == s.skip(i),
    decreases s.len() - i,
{
    if i >= s.len() {
        assert(s.skip(i) =~= Seq::<char>::empty());
    } else {
        lemma_triple_id(s, i + 1);
        assert(seq![s[i]] + s.skip(i + 1) =~= s.skip(i));
    }
}

// ---------------------------------------------------------------------------
// The quoting round trip
// ---------------------------------------------------------------------------
/// Text free of quotes, sentinels, comment introducers and exotic
/// whitespace: the literals the quoting round trip is about.
pub open spec fn plain_literal_text(s: Seq<char>) -> bool {
    &&& (forall|i: int|
        0 <= i < s.len() ==> #[trigger] s[i] != '\'' && s[i] != '_' && s[i] != '-')
    &&& (forall|i: int| 0 <= i < s.len() ==> (is_sql_ws(#[trigger] s[i]) ==> s[i] == ' '))
    &&& (forall|i: int| 0 <= i < s.len() - 1 ==> !(#[trigger] s[i] == ' ' && s[i + 1] == ' '))
    &&& (forall|i: int| 0 <= i < s.len() - 1 ==> !(#[trigger] s[i] == '/' && s[i + 1] == '*'))
}

/// Masking the quote-free body of a quoted literal: the closing quote
/// passes through and the quote state ends.
proof fn lemma_mask_quoted_body(s: Seq<char>, j: int)
    requires
        0 <= j <= s.len(),
        forall|m: int| 0 <= m < s.len() ==> #[trigger] s[m] != '\'',
    ensures
        mask_from(seq!['\''] + s + seq!['\''], 1 + j, true) == mask_from(s, j, true) + seq!['\''],
    decreases s.len() - j,
{
    let w = seq!['\''] + s + seq!['\''];
    if j == s.len() {
        assert(w[1 + j] == '\'');
        assert(mask_from(w, 1 + j, true) == seq!['\''] + mask_from(w, 2 + j, false));
        assert(mask_from(w, 2 + j, false) =~= Seq::<char>::empty());
        assert(seq!['\''] + Seq::<char>::empty() =~= seq!['\'']);
        assert(mask_from(s, j, true) + seq!['\''] =~= seq!['\'']);
    } else {
        assert(w[1 + j] == s[j]);
        lemma_mask_quoted_body(s, j + 1);
        if s[j] == ' ' {
            assert((seq!['_', '_', '_'] + mask_from(s, j + 1, true)) + seq!['\''] =~= seq![
                '_',
                '_',
                '_',
            ] + (mask_from(s, j + 1, true) + seq!['\'']));
        } else if s[j] == ',' {
            assert((seq!['-', '-', '-'] + mask_from(s, j + 1, true)) + seq!['\''] =~= seq![
                '-',
                '-',
                '-',
            ] + (mask_from(s, j + 1, true) + seq!['\'']));
        } else {
            assert((seq![s[j]] + mask_from(s, j + 1, true)) + seq!['\''] =~= seq![s[j]] + (
            mask_from(s, j + 1, true) + seq!['\'']));
        }
    }
}

/// The masked body of a quoted literal holds no whitespace.
proof fn lemma_mask_body_no_ws(s: Seq<char>, j: int)
    requires
        0 <= j <= s.len(),
        forall|m: int| 0 <= m < s.len() ==> #[trigger] s[m] != '\'',
        forall|m: int| 0 <= m < s.len() ==> (is_sql_ws(#[trigger] s[m]) ==> s[m] == ' '),
    ensures
        forall|k: int|
            0 <= k < mask_from(s, j, true).len() ==> !is_sql_ws(
                #[trigger] mask_from(s, j, true)[k],
            ),
    decreases s.len() - j,
{
    if j >= s.len() {
    } else {
        lemma_mask_body_no_ws(s, j + 1);
        let m = mask_from(s, j, true);
        let rest = mask_from(s, j + 1, true);
        if s[j] == ' ' {
            assert forall|k: int| 0 <= k < m.len() implies !is_sql_ws(m[k]) by {
                if k < 3 {
                    assert(m[k] == '_');
                } else {
                    assert(m[k] == rest[k - 3]);
                }
            }
        } else if s[j] == ',' {
            assert forall|k: int| 0 <= k < m.len() implies !is_sql_ws(m[k]) by {
                if k < 3 {
                    assert(m[k] == '-');
                } else {
                    assert(m[k] == rest[k - 3]);
                }
            }
        } else {
            assert forall|k: int| 0 <= k < m.len() implies !is_sql_ws(m[k]) by {
                if k < 1 {
                    assert(m[k] == s[j]);
                } else {
                    assert(m[k] == rest[k - 1]);
                }
            }
        }
    }
}

/// The masked body of a quoted literal holds no quote.
proof fn lemma_mask_body_no_quote(s: Seq<char>, j: int)
    requires
        0 <= j <= s.len(),
        forall|m: int| 0 <= m < s.len() ==> #[trigger] s[m] != '\'',
    ensures
        forall|k: int|
            0 <= k < mask_from(s, j, true).len() ==> #[trigger] mask_from(s, j, true)[k] != '\'',
    decreases s.len() - j,
{
    if j >= s.len() {
    } else {
        lemma_mask_body_no_quote(s, j + 1);
        let m = mask_from(s, j, true);
        let rest = mask_from(s, j + 1, true);
        if s[j] == ' ' || s[j] == ',' {
            assert forall|k: int| 0 <= k < m.len() implies m[k] != '\'' by {
                if k >= 3 {
                    assert(m[k] == rest[k - 3]);
                }
            }
        } else {
            assert forall|k: int| 0 <= k < m.len() implies m[k] != '\'' by {
                if k >= 1 {
                    assert(m[k] == rest[k - 1]);
                }
            }
        }
    }
}

/// A whitespace-free text splits into exactly one word.
proof fn lemma_words_single(s: Seq<char>, i: int, cur: Seq<char>)
    requires
        0 <= i <= s.len(),
        forall|m: int| i <= m < s.len() ==> !is_sql_ws(#[trigger] s[m]),
        cur.len() + s.len() - i > 0,
    ensures
        words_from(s, i, cur) == seq![cur + s.skip(i)],
    decreases s.len() - i,
{
    if i >= s.len() {
        assert(cur + s.skip(i) =~= cur);
    } else {
        lemma_words_single(s, i + 1, cur.push(s[i]));
        assert(cur.push(s[i]) + s.skip(i + 1) =~= cur + s.skip(i));
    }
}

/// Replacement is the identity when the pattern never occurs.
proof fn lemma_replace_id(m: Seq<char>, pat: Seq<char>, rep: Seq<char>)
    requires
        pat.len() > 0,
        forall|i: int| 0 <= i ==> !contains_at(m, i, pat),
    ensures
        replace_all(m, pat, rep) == m,
    decreases m.len(),
{
    if m.len() == 0 {
    } else {
        assert(!contains_at(m, 0, pat));
        assert forall|i: int| 0 <= i implies !contains_at(m.skip(1), i, pat) by {
            crate::strutil::lemma_contains_at_skip(m, 1, pat);
            if 0 <= i && contains_at(m.skip(1), i, pat) {
                assert(m.skip(1).subrange(i, i + pat.len()) =~= m.subrange(i + 1, i + 1
                    + pat.len()));
                assert(contains_at(m, i + 1, pat));
            }
        }
        lemma_replace_id(m.skip(1), pat, rep);
        assert(seq![m[0]] + m.skip(1) =~= m);
    }
}

/// The comma-masked form of a text: commas replaced by the `---` sentinel,
/// everything else kept.
pub open spec fn comma_masked(s: Seq<char>, j: int) -> Seq<char>
    decreases s.len() - j,
    when 0 <= j
{
    if j >= s.len() {
        Seq::empty()
    } else if s[j] == ',' {
        seq!['-', '-', '-'] + comma_masked(s, j + 1)
    } else {
        seq![s[j]] + comma_masked(s, j + 1)
    }
}

/// Undoing the space sentinel on a masked literal body leaves the
/// comma-masked text.
proof fn lemma_unmask_spaces(s: Seq<char>, j: int)
    requires
        0 <= j <= s.len(),
        forall|m: int|
            0 <= m < s.len() ==> #[trigger] s[m] != '\'' && s[m] != '_' && s[m] != '-',
    ensures
        replace_all(mask_from(s, j, true), seq!['_', '_', '_'], seq![' ']) == comma_masked(s, j),
    decreases s.len() - j,
{
    let pat = seq!['_', '_', '_'];
    let rep = seq![' '];
    let m = mask_from(s, j, true);
    if j >= s.len() {
    } else {
        lemma_unmask_spaces(s, j + 1);
        let rest = mask_from(s, j + 1, true);
        if s[j] == ' ' {
            assert(m == seq!['_', '_', '_'] + rest);
            assert(m.subrange(0, 3) =~= pat);
            assert(contains_at(m, 0, pat));
            assert(m.skip(3) =~= rest);
            assert(replace_all(m, pat, rep) == rep + replace_all(rest, pat, rep));
            assert(rep + comma_masked(s, j + 1) =~= comma_masked(s, j));
        } else if s[j] == ',' {
            assert(m == seq!['-', '-', '-'] + rest);
            assert(m[0] == '-');
            assert(!contains_at(m, 0, pat)) by {
                if contains_at(m, 0, pat) {
                    assert(m.subrange(0, 3)[0] == m[0]);
                }
            }
            let m1 = m.skip(1);
            assert(m1 =~= seq!['-', '-'] + rest);
            assert(!contains_at(m1, 0, pat)) by {
                if contains_at(m1, 0, pat) {
                    assert(m1.subrange(0, 3)[0] == m1[0]);
                }
            }
            let m2 = m1.skip(1);
            assert(m2 =~= seq!['-'] + rest);
            assert(!contains_at(m2, 0, pat)) by {
                if contains_at(m2, 0, pat) {
                    assert(m2.subrange(0, 3)[0] == m2[0]);
                }
            }
            let m3 = m2.skip(1);
            assert(m3 =~= rest);
            assert(replace_all(m, pat, rep) == seq![m[0]] + replace_all(m1, pat, rep));
            assert(replace_all(m1, pat, rep) == seq![m1[0]] + replace_all(m2, pat, rep));
            assert(replace_all(m2, pat, rep) == seq![m2[0]] + replace_all(m3, pat, rep));
            assert(replace_all(m3, pat, rep) == comma_masked(s, j + 1));
            assert(m[0] == '-' && m1[0] == '-' && m2[0] == '-');
            assert(seq![m[0]] + (seq![m1[0]] + (seq![m2[0]] + comma_masked(s, j + 1)))
                =~= comma_masked(s, j));
        } else {
            assert(m == seq![s[j]] + rest);
            assert(m[0] == s[j]);
            assert(!contains_at(m, 0, pat)) by {
                if contains_at(m, 0, pat) {
                    assert(m.subrange(0, 3)[0] == m[0]);
                }
            }
            assert(m.skip(1) =~= rest);
            assert(replace_all(m, pat, rep) == seq![m[0]] + replace_all(rest, pat, rep));
            assert(seq![s[j]] + comma_masked(s, j + 1) =~= comma_masked(s, j));
        }
    }
}

/// The comma-masked form of a quote-free text holds no quote.
proof fn lemma_comma_masked_no_quote(s: Seq<char>, j: int)
    requires
        0 <= j <= s.len(),
        forall|m: int| 0 <= m < s.len() ==> #[trigger] s[m] != '\'',
    ensures
        forall|k: int|
            0 <= k < comma_masked(s, j).len() ==> #[trigger] comma_masked(s, j)[k] != '\'',
    decreases s.len() - j,
{
    if j >= s.len() {
    } else {
        lemma_comma_masked_no_quote(s, j + 1);
        let m = comma_masked(s, j);
        let rest = comma_masked(s, j + 1);
        if s[j] == ',' {
            assert forall|k: int| 0 <= k < m.len() implies m[k] != '\'' by {
                if k >= 3 {
                    assert(m[k] == rest[k - 3]);
                }
            }
        } else {
            assert forall|k: int| 0 <= k < m.len() implies m[k] != '\'' by {
                if k >= 1 {
                    assert(m[k] == rest[k - 1]);
                }
            }
        }
    }
}

/// Undoing the comma sentinel on the comma-masked text restores the text.
proof fn lemma_unmask_commas(s: Seq<char>, j: int)
    requires
        0 <= j <= s.len(),
        forall|m: int| 0 <= m < s.len() ==> #[trigger] s[m] != '-',
    ensures
        replace_all(comma_masked(s, j), seq!['-', '-', '-'], seq![',']) == s.skip(j),
    decreases s.len() - j,
{
    let pat = seq!['-', '-', '-'];
    let rep = seq![','];
    let m = comma_masked(s, j);
    if j >= s.len() {
        assert(s.skip(j) =~= Seq::<char>::empty());
    } else {
        lemma_unmask_commas(s, j + 1);
        let rest = comma_masked(s, j + 1);
        if s[j] == ',' {
            assert(m == seq!['-', '-', '-'] + rest);
            assert(m.subrange(0, 3) =~= pat);
            assert(contains_at(m, 0, pat));
            assert(m.skip(3) =~= rest);
            assert(replace_all(m, pat, rep) == rep + replace_all(rest, pat, rep));
            assert(rep + s.skip(j + 1) =~= s.skip(j));
        } else {
            assert(m == seq![s[j]] + rest);
            assert(m[0] == s[j]);
            assert(s[j] != '-');
            assert(!contains_at(m, 0, pat)) by {
                if contains_at(m, 0, pat) {
                    assert(m.subrange(0, 3)[0] == m[0]);
                }
            }
            assert(m.skip(1) =~= rest);
            assert(replace_all(m, pat, rep) == seq![m[0]] + replace_all(rest, pat, rep));
            assert(seq![s[j]] + s.skip(j + 1) =~= s.skip(j));
        }
    }
}

/// A word beginning with a quote is in no vocabulary whose entries do not
/// begin with one.
proof fn lemma_kw_not_quoted(list: Seq<Seq<char>>, w: Seq<char>)
    requires
        no_quote_entries(list),
        w.len() > 0,
        w[0] == '\'',
    ensures
        !kw_in(list, w),
{
    assert forall|k: int| 0 <= k < list.len() implies list[k] != w by {
        if list[k] == w {
            assert(list[k].len() == 0 || list[k][0] != '\'');
        }
    }
}

/// The quoting round trip, against any vocabularies whose entries do not
/// begin with a quote: tokenizing `'<s>'` yields exactly one string
/// literal token equal to `s`, for any literal text `s` — spaces and
/// commas included — free of quotes, sentinel characters (`_`, `-`),
/// comment introducers and exotic whitespace. The sentinel substitution
/// that protects quoted spaces and commas from word splitting is exactly
/// reversed.
pub proof fn lemma_quoted_literal_round_trip(s: Seq<char>, kws: Seq<Seq<char>>, tys: Seq<Seq<char>>)
    requires
        no_quote_entries(kws),
        no_quote_entries(tys),
        plain_literal_text(s),
    ensures
        spec_tokenize(seq!['\''] + s + seq!['\''], kws, tys) == seq![TokenModel::StringLiteral(s)],
{
    let w0 = seq!['\''] + s + seq!['\''];
    let n = s.len() as int;
    assert(w0.len() == n + 2);
    assert(w0[0] == '\'' && w0[n + 1] == '\'');
    assert(forall|i: int| 0 <= i < n ==> w0[i + 1] == s[i]);
    assert(!is_sql_ws('\''));
    // The quoted input is already in the normal form every stage before
    // masking preserves.
    assert(ws_normal(w0)) by {
        assert forall|i: int| 0 <= i < w0.len() && is_sql_ws(w0[i]) implies w0[i] == ' ' by {
            if 1 <= i <= n {
                assert(w0[i] == s[i - 1]);
            }
        }
    }
    assert(no_double_space(w0)) by {
        assert forall|i: int| 0 <= i < w0.len() - 1 implies !(#[trigger] w0[i] == ' ' && w0[i + 1] == ' ') by {
            if 1 <= i && i + 1 <= n {
                assert(w0[i] == s[i - 1] && w0[i + 1] == s[i]);
            }
        }
    }
    assert(no_closed_block_comment(w0)) by {
        assert forall|i: int| 0 <= i < w0.len() - 1 implies !(#[trigger] w0[i] == '/' && w0[i + 1] == '*' && has_block_close(w0, i + 2)) by {
            if w0[i] == '/' && w0[i + 1] == '*' {
                assert(1 <= i && i + 1 <= n);
                assert(w0[i] == s[i - 1] && w0[i + 1] == s[i]);
            }
        }
    }
    assert(no_line_comment(w0)) by {
        assert forall|i: int| 0 <= i < w0.len() - 1 implies !(#[trigger] w0[i] == '-' && w0[i + 1] == '-') by {
            if w0[i] == '-' {
                assert(1 <= i <= n);
                assert(w0[i] == s[i - 1]);
            }
        }
    }
    assert(no_edge_space(w0));
    assert(no_triple_quote(w0)) by {
        assert forall|i: int| 0 <= i < w0.len() - 2 implies !(#[trigger] w0[i] == '\'' && w0[i + 1] == '\'' && w0[i + 2] == '\'') by {
            if w0[i] == '\'' && w0[i + 1] == '\'' {
                if 1 <= i <= n {
                    assert(w0[i] == s[i - 1]);
                } else if 1 <= i + 1 && i + 1 <= n {
                    assert(w0[i + 1] == s[i]);
                }
            }
        }
    }
    // Every stage before masking is the identity on the quoted input.
    lemma_strip_block_id(w0, 0);
    lemma_strip_line_id(w0, 0);
    lemma_nl_id(w0);
    lemma_collapse_id(w0, 0);
    lemma_trim_id(w0);
    lemma_triple_id(w0, 0);
    assert(w0.skip(0) =~= w0);
    // Masking turns the input into the quoted masked body.
    lemma_mask_quoted_body(s, 0);
    assert(mask_from(w0, 0, false) == seq!['\''] + mask_from(w0, 1, true));
    let body = mask_from(s, 0, true);
    let y = seq!['\''] + (body + seq!['\'']);
    assert(spec_preprocess(w0) == y);
    let yn = y.len();
    assert(yn == body.len() + 2);
    assert(y[0] == '\'' && y[yn - 1] == '\'');
    assert(forall|k: int| 0 <= k < body.len() ==> y[k + 1] == body[k]);
    // The masked word holds no whitespace, so it splits as one word.
    lemma_mask_body_no_ws(s, 0);
    lemma_mask_body_no_quote(s, 0);
    assert forall|m: int| 0 <= m < yn implies !is_sql_ws(y[m]) by {
        if 1 <= m <= body.len() {
            assert(y[m] == body[m - 1]);
        }
    }
    lemma_words_single(y, 0, Seq::empty());
    assert(Seq::<char>::empty() + y.skip(0) =~= y);
    assert(split_words(y) == seq![y]);
    // Classification: the word is a quoted string literal and nothing
    // earlier in the decision chain.
    assert(classify_words(seq![y], kws, tys) == classify_word(y, kws, tys) + classify_words(
        seq![y].drop_first(),
        kws,
        tys,
    ));
    assert(seq![y].drop_first() =~= Seq::<Seq<char>>::empty());
    assert(classify_words(Seq::<Seq<char>>::empty(), kws, tys) =~= Seq::<TokenModel>::empty());
    // No trailing comma or semicolon to split off.
    assert(y.last() == '\'');
    // Not a data type, keyword or number; a quoted literal.
    assert(upper_seq(y)[0] == upper_char('\''));
    assert(upper_char('\'') == '\'');
    lemma_kw_not_quoted(tys, upper_seq(y));
    lemma_kw_not_quoted(kws, upper_seq(y));
    assert(data_type_of(y, tys) is None) by {
        if find_open_paren(y, 0) is Some {
            assert(y.last() != ')');
        }
    }
    assert(!is_digit(y[0]));
    assert(!crate::chars::all_digits(y));
    assert(y.len() >= 2 && y[0] == '\'' && y.last() == '\'');
    let inner = y.subrange(1, y.len() - 1);
    assert(inner =~= body);
    assert(classify_body(y, kws, tys) == seq![
        TokenModel::StringLiteral(crate::lexspec::restore_literal(inner)),
    ]);
    // The sentinel substitutions reverse exactly.
    lemma_unmask_spaces(s, 0);
    let cm = comma_masked(s, 0);
    lemma_comma_masked_no_quote(s, 0);
    assert forall|i: int| 0 <= i implies !contains_at(cm, i, seq!['\'', '\'']) by {
        if contains_at(cm, i, seq!['\'', '\'']) {
            assert(cm.subrange(i, i + 2)[0] == cm[i]);
            assert(cm[i] == '\'');
        }
    }
    lemma_replace_id(cm, seq!['\'', '\''], seq!['\'']);
    lemma_unmask_commas(s, 0);
    assert(s.skip(0) =~= s);
    assert(crate::lexspec::restore_literal(inner) == s);
    assert(classify_word(y, kws, tys) == classify_body(y, kws, tys));
    assert(classify_body(y, kws, tys) + Seq::<TokenModel>::empty() =~= classify_body(
        y,
        kws,
        tys,
    ));
    assert(spec_tokenize(w0, kws, tys) == seq![TokenModel::StringLiteral(s)]);
}

/// The quoting round trip against the standard vocabulary: what the
/// tokenizer itself guarantees of quoted literals containing spaces and
/// commas.
pub proof fn lemma_quoted_literal_round_trip_std(s: Seq<char>)
    requires
        plain_literal_text(s),
    ensures
        spec_tokenize(seq!['\''] + s + seq!['\''], std_keywords(), std_types()) == seq![
            TokenModel::StringLiteral(s),
        ],
{
    lemma_std_vocab_no_quote();
    lemma_quoted_literal_round_trip(s, std_keywords(), std_types());
}

// ---------------------------------------------------------------------------
// Shape of the preprocessed form
// ---------------------------------------------------------------------------
/// Collapsed text has single spaces as its only whitespace, and begins
/// with no space when a whitespace run was already under way.
proof fn lemma_collapse_props(s: Seq<char>, i: int, prev: bool)
    requires
        0 <= i <= s.len(),
    ensures
        ws_normal(collapse_from(s, i, prev)),
        no_double_space(collapse_from(s, i, prev)),
        prev && collapse_from(s, i, prev).len() > 0 ==> collapse_from(s, i, prev)[0] != ' ',
    decreases s.len() - i,
{
    if i >= s.len() {
    } else if is_sql_ws(s[i]) {
        lemma_collapse_props(s, i + 1, true);
        let rest = collapse_from(s, i + 1, true);
        if prev {
        } else {
            let out = collapse_from(s, i, prev);
            assert(out == seq![' '] + rest);
            assert forall|k: int| 0 <= k < out.len() && is_sql_ws(out[k]) implies out[k] == ' '
            by {
                if k >= 1 {
                    assert(out[k] == rest[k - 1]);
                }
            }
            assert forall|k: int| 0 <= k < out.len() - 1 implies !(#[trigger] out[k] == ' '
                && out[k + 1] == ' ') by {
                if k == 0 {
                    assert(out[1] == rest[0]);
                } else {
                    assert(out[k] == rest[k - 1] && out[k + 1] == rest[k]);
                }
            }
        }
    } else {
        lemma_collapse_props(s, i + 1, false);
        let rest = collapse_from(s, i + 1, false);
        let out = collapse_from(s, i, prev);
        assert(out == seq![s[i]] + rest);
        assert forall|k: int| 0 <= k < out.len() && is_sql_ws(out[k]) implies out[k] == ' ' by {
            if k >= 1 {
                assert(out[k] == rest[k - 1]);
            }
        }
        assert forall|k: int| 0 <= k < out.len() - 1 implies !(#[trigger] out[k] == ' ' && out[k
            + 1] == ' ') by {
            if k == 0 {
                assert(out[0] == s[i] && !is_sql_ws(s[i]));
            } else {
                assert(out[k] == rest[k - 1] && out[k + 1] == rest[k]);
            }
        }
    }
}

/// Front trimming keeps the whitespace shape, removes the leading space,
/// and keeps the last character.
proof fn lemma_trim_front_props(s: Seq<char>)
    requires
        ws_normal(s),
        no_double_space(s),
    ensures
        ws_normal(trim_front(s)),
        no_double_space(trim_front(s)),
        trim_front(s).len() > 0 ==> trim_front(s)[0] != ' ',
        trim_front(s).len() > 0 ==> s.len() > 0 && trim_front(s).last() == s.last(),
    decreases s.len(),
{
    if s.len() > 0 && s[0] == ' ' {
        let t = s.skip(1);
        assert forall|k: int| 0 <= k < t.len() && is_sql_ws(t[k]) implies t[k] == ' ' by {
            assert(t[k] == s[k + 1]);
        }
        assert forall|k: int| 0 <= k < t.len() - 1 implies !(#[trigger] t[k] == ' ' && t[k + 1]
            == ' ') by {
            assert(t[k] == s[k + 1] && t[k + 1] == s[k + 2]);
        }
        lemma_trim_front_props(t);
        if trim_front(s).len() > 0 {
            assert(t.last() == s.last());
        }
    }
}

/// Back trimming keeps the whitespace shape and the first character, and
/// removes the trailing space.
proof fn lemma_trim_back_props(s: Seq<char>)
    requires
        ws_normal(s),
        no_double_space(s),
    ensures
        ws_normal(trim_back(s)),
        no_double_space(trim_back(s)),
        trim_back(s).len() > 0 ==> trim_back(s).last() != ' ',
        trim_back(s).len() > 0 ==> s.len() > 0 && trim_back(s)[0] == s[0],
    decreases s.len(),
{
    if s.len() > 0 && s.last() == ' ' {
        let t = s.drop_last();
        assert forall|k: int| 0 <= k < t.len() && is_sql_ws(t[k]) implies t[k] == ' ' by {
            assert(t[k] == s[k]);
        }
        assert forall|k: int| 0 <= k < t.len() - 1 implies !(#[trigger] t[k] == ' ' && t[k + 1]
            == ' ') by {
            assert(t[k] == s[k] && t[k + 1] == s[k + 1]);
        }
        lemma_trim_back_props(t);
        if trim_back(s).len() > 0 {
            assert(t[0] == s[0]);
        }
    }
}

/// Triple-quote normalization keeps the whitespace shape; its output
/// begins and ends with a quote or the corresponding input character.
proof fn lemma_triple_props(s: Seq<char>, i: int)
    requires
        0 <= i <= s.len(),
        ws_normal(s),
        no_double_space(s),
    ensures
        ws_normal(triple_from(s, i)),
        no_double_space(triple_from(s, i)),
        triple_from(s, i).len() > 0 ==> i < s.len() && (triple_from(s, i)[0] == '\''
            || triple_from(s, i)[0] == s[i]),
        triple_from(s, i).len() > 0 ==> (triple_from(s, i).last() == '\'' || triple_from(
            s,
            i,
        ).last() == s.last()),
    decreases s.len() - i,
{
    if i >= s.len() {
    } else {
        let out = triple_from(s, i);
        if s[i] == '\'' && i + 2 < s.len() && s[i + 1] == '\'' && s[i + 2] == '\'' {
            lemma_triple_props(s, i + 3);
            let rest = triple_from(s, i + 3);
            assert(out == seq!['\''] + rest);
            assert forall|k: int| 0 <= k < out.len() && is_sql_ws(out[k]) implies out[k] == ' '
            by {
                if k >= 1 {
                    assert(out[k] == rest[k - 1]);
                }
            }
            assert forall|k: int| 0 <= k < out.len() - 1 implies !(#[trigger] out[k] == ' '
                && out[k + 1] == ' ') by {
                if k == 0 {
                } else {
                    assert(out[k] == rest[k - 1] && out[k + 1] == rest[k]);
                }
            }
            if rest.len() > 0 {
                assert(out.last() == rest.last());
            }
        } else {
            lemma_triple_props(s, i + 1);
            let rest = triple_from(s, i + 1);
            assert(out == seq![s[i]] + rest);
            assert forall|k: int| 0 <= k < out.len() && is_sql_ws(out[k]) implies out[k] == ' '
            by {
                if k >= 1 {
                    assert(out[k] == rest[k - 1]);
                }
            }
            assert forall|k: int| 0 <= k < out.len() - 1 implies !(#[trigger] out[k] == ' '
                && out[k + 1] == ' ') by {
                if k == 0 {
                    assert(out[1] == rest[0]);
                    if out[0] == ' ' {
                        assert(rest[0] == '\'' || rest[0] == s[i + 1]);
                    }
                } else {
                    assert(out[k] == rest[k - 1] && out[k + 1] == rest[k]);
                }
            }
            if rest.len() > 0 {
                assert(out.last() == rest.last());
            }
        }
    }
}

/// A shift of the masking-finished test past a prefix.
proof fn lemma_mask_done_shift(pre: Seq<char>, t: Seq<char>, j: int, b: bool)
    requires
        0 <= j <= t.len(),
    ensures
        mask_done(pre + t, pre.len() + j, b) == mask_done(t, j, b),
    decreases t.len() - j,
{
    let w = pre + t;
    if j >= t.len() {
    } else {
        assert(w[pre.len() + j] == t[j]);
        lemma_mask_done_shift(pre, t, j + 1, b);
        lemma_mask_done_shift(pre, t, j + 1, !b);
    }
}

/// Masking keeps the whitespace shape, leaves nothing more to mask, and
/// begins and ends with a sentinel character or the corresponding input
/// character.
proof fn lemma_mask_props(s: Seq<char>, i: int, b: bool)
    requires
        0 <= i <= s.len(),
        ws_normal(s),
        no_double_space(s),
    ensures
        ws_normal(mask_from(s, i, b)),
        no_double_space(mask_from(s, i, b)),
        mask_done(mask_from(s, i, b), 0, b),
        mask_from(s, i, b).len() > 0 ==> i < s.len() && (mask_from(s, i, b)[0] == s[i]
            || mask_from(s, i, b)[0] == '_' || mask_from(s, i, b)[0] == '-'),
        mask_from(s, i, b).len() > 0 ==> (mask_from(s, i, b).last() == s.last() || mask_from(
            s,
            i,
            b,
        ).last() == '_' || mask_from(s, i, b).last() == '-'),
    decreases s.len() - i,
{
    if i >= s.len() {
    } else {
        let out = mask_from(s, i, b);
        if s[i] == '\'' {
            lemma_mask_props(s, i + 1, !b);
            let rest = mask_from(s, i + 1, !b);
            assert(out == seq!['\''] + rest);
            lemma_mask_done_shift(seq!['\''], rest, 0, !b);
            assert(mask_done(out, 1, !b) == mask_done(rest, 0, !b));
            assert(mask_done(out, 0, b));
            assert forall|k: int| 0 <= k < out.len() && is_sql_ws(out[k]) implies out[k] == ' '
            by {
                if k >= 1 {
                    assert(out[k] == rest[k - 1]);
                }
            }
            assert forall|k: int| 0 <= k < out.len() - 1 implies !(#[trigger] out[k] == ' '
                && out[k + 1] == ' ') by {
                if k == 0 {
                } else {
                    assert(out[k] == rest[k - 1] && out[k + 1] == rest[k]);
                }
            }
            if rest.len() > 0 {
                assert(out.last() == rest.last());
            }
        } else if s[i] == ' ' && b {
            lemma_mask_props(s, i + 1, b);
            let rest = mask_from(s, i + 1, b);
            assert(out == seq!['_', '_', '_'] + rest);
            lemma_mask_done_shift(seq!['_', '_', '_'], rest, 0, b);
            assert(out[0] == '_' && out[1] == '_' && out[2] == '_');
            assert(mask_done(out, 3, b) == mask_done(rest, 0, b));
            assert(mask_done(out, 2, b));
            assert(mask_done(out, 1, b));
            assert(mask_done(out, 0, b));
            assert forall|k: int| 0 <= k < out.len() && is_sql_ws(out[k]) implies out[k] == ' '
            by {
                if k >= 3 {
                    assert(out[k] == rest[k - 3]);
                } else {
                    assert(out[k] == '_');
                }
            }
            assert forall|k: int| 0 <= k < out.len() - 1 implies !(#[trigger] out[k] == ' '
                && out[k + 1] == ' ') by {
                if k < 3 {
                    assert(out[k] == '_');
                } else {
                    assert(out[k] == rest[k - 3] && out[k + 1] == rest[k - 2]);
                }
            }
            if rest.len() > 0 {
                assert(out.last() == rest.last());
            } else {
                assert(out.last() == '_');
            }
        } else if s[i] == ',' && b {
            lemma_mask_props(s, i + 1, b);
            let rest = mask_from(s, i + 1, b);
            assert(out == seq!['-', '-', '-'] + rest);
            lemma_mask_done_shift(seq!['-', '-', '-'], rest, 0, b);
            assert(out[0] == '-' && out[1] == '-' && out[2] == '-');
            assert(mask_done(out, 3, b) == mask_done(rest, 0, b));
            assert(mask_done(out, 2, b));
            assert(mask_done(out, 1, b));
            assert(mask_done(out, 0, b));
            assert forall|k: int| 0 <= k < out.len() && is_sql_ws(out[k]) implies out[k] == ' '
            by {
                if k >= 3 {
                    assert(out[k] == rest[k - 3]);
                } else {
                    assert(out[k] == '-');
                }
            }
            assert forall|k: int| 0 <= k < out.len() - 1 implies !(#[trigger] out[k] == ' '
                && out[k + 1] == ' ') by {
                if k < 3 {
                    assert(out[k] == '-');
                } else {
                    assert(out[k] == rest[k - 3] && out[k + 1] == rest[k - 2]);
                }
            }
            if rest.len() > 0 {
                assert(out.last() == rest.last());
            } else {
                assert(out.last() == '-');
            }
        } else {
            lemma_mask_props(s, i + 1, b);
            let rest = mask_from(s, i + 1, b);
            assert(out == seq![s[i]] + rest);
            lemma_mask_done_shift(seq![s[i]], rest, 0, b);
            assert(out[0] == s[i] && s[i] != '\'');
            assert(mask_done(out, 1, b) == mask_done(rest, 0, b));
            assert(mask_done(out, 0, b));
            assert forall|k: int| 0 <= k < out.len() && is_sql_ws(out[k]) implies out[k] == ' '
            by {
                if k >= 1 {
                    assert(out[k] == rest[k - 1]);
                }
            }
            assert forall|k: int| 0 <= k < out.len() - 1 implies !(#[trigger] out[k] == ' '
                && out[k + 1] == ' ') by {
                if k == 0 {
                    if out[0] == ' ' {
                        assert(rest.len() > 0);
                        assert(out[1] == rest[0]);
                        assert(rest[0] == s[i + 1] || rest[0] == '_' || rest[0] == '-');
                    }
                } else {
                    assert(out[k] == rest[k - 1] && out[k + 1] == rest[k]);
                }
            }
            if rest.len() > 0 {
                assert(out.last() == rest.last());
            }
        }
    }
}

/// The preprocessed form is a stable fixed point: preprocessing its own
/// output changes nothing, provided the first pass left no new comment
/// introducer and no new triple quote behind (comment stripping and quote
/// normalization are oblivious of quoting and can conjure those in
/// pathological inputs).
pub proof fn lemma_preprocess_idempotent(x: Seq<char>)
    requires
        no_closed_block_comment(spec_preprocess(x)),
        no_line_comment(spec_preprocess(x)),
        no_triple_quote(spec_preprocess(x)),
    ensures
        spec_preprocess(spec_preprocess(x)) == spec_preprocess(x),
{
    let a = strip_block_from(x, 0);
    let b = strip_line_from(a, 0);
    let c = nl_to_space(b);
    let d0 = collapse_from(c, 0, false);
    let d = trim_back(trim_front(d0));
    let e = triple_from(d, 0);
    let y = mask_from(e, 0, false);
    assert(spec_preprocess(x) == y);
    lemma_collapse_props(c, 0, false);
    lemma_trim_front_props(d0);
    lemma_trim_back_props(trim_front(d0));
    assert(ws_normal(d) && no_double_space(d));
    assert(no_edge_space(d));
    lemma_triple_props(d, 0);
    assert(ws_normal(e) && no_double_space(e));
    assert(no_edge_space(e)) by {
        if e.len() > 0 {
            assert(e[0] == '\'' || e[0] == d[0]);
            assert(e.last() == '\'' || e.last() == d.last());
        }
    }
    lemma_mask_props(e, 0, false);
    assert(ws_normal(y) && no_double_space(y) && mask_done(y, 0, false));
    assert(no_edge_space(y)) by {
        if y.len() > 0 {
            assert(y[0] == e[0] || y[0] == '_' || y[0] == '-');
            assert(y.last() == e.last() || y.last() == '_' || y.last() == '-');
        }
    }
    lemma_strip_block_id(y, 0);
    lemma_strip_line_id(y, 0);
    lemma_nl_id(y);
    lemma_collapse_id(y, 0);
    lemma_trim_id(y);
    lemma_triple_id(y, 0);
    lemma_mask_id(y, 0, false);
    assert(y.skip(0) =~= y);
}

/// Masking is the identity when there is nothing to mask.
pub proof fn lemma_mask_id(s: Seq<char>, i: int, in_q: bool)
    requires
        0 <= i <= s.len(),
        mask_done(s, i, in_q),
    ensures
        mask_from(s, i, in_q) == s.skip(i),
    decreases s.len() - i,
{
    if i >= s.len() {
        assert(s.skip(i) =~= Seq::<char>::empty());
    } else if s[i] == '\'' {
        lemma_mask_id(s, i + 1, !in_q);
        assert(seq![s[i]] + s.skip(i + 1) =~= s.skip(i));
    } else {
        lemma_mask_id(s, i + 1, in_q);
        assert(seq![s[i]] + s.skip(i + 1) =~= s.skip(i));
    }
}

} // verus!
