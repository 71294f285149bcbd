//! Character classification and case folding for the lexer.
//!
//! The lexer's character classes are defined here once, in spec form, with
//! verified executable counterparts. Whitespace and case folding are defined
//! over ASCII; characters above the ASCII range are treated as word
//! characters, so that identifiers in other scripts pass through the lexer
//! unbroken. This is a deliberate restriction of the dialect: non-ASCII
//! whitespace is not collapsed or split on, non-ASCII punctuation joins
//! identifier runs, and case folding never maps characters outside
//! `a`..=`z`. Inputs confined to ASCII outside quoted literals — all of
//! SQL's own syntax — are unaffected.

use vstd::prelude::*;

verus! {

/// Whitespace recognized by the lexer: the ASCII whitespace characters.
pub open spec fn is_sql_ws(c: char) -> bool {
    c == ' ' || c == '\t' || c == '\n' || c == '\r' || c == '\u{000B}' || c == '\u{000C}'
}

/// Executable whitespace test.
pub fn sql_ws(c: char) -> (r: bool)
    ensures
        r == is_sql_ws(c),
{
    c == ' ' || c == '\t' || c == '\n' || c == '\r' || c == '\u{000B}' || c == '\u{000C}'
}

/// An ASCII decimal digit.
pub open spec fn is_digit(c: char) -> bool {
    '0' <= c && c <= '9'
}

/// Executable digit test.
pub fn digit(c: char) -> (r: bool)
    ensures
        r == is_digit(c),
{
    '0' <= c && c <= '9'
}

/// The numeric value of a digit character.
pub open spec fn digit_val(c: char) -> int {
    c as int - '0' as int
}

/// A character that accumulates into an identifier, keyword or number
/// candidate: ASCII alphanumeric, underscore, or any character above the
/// ASCII range.
pub open spec fn is_word_char(c: char) -> bool {
    ('a' <= c && c <= 'z') || ('A' <= c && c <= 'Z') || is_digit(c) || c == '_' || (c as u32)
        > 127
}

/// Executable word-character test.
pub fn word_char(c: char) -> (r: bool)
    ensures
        r == is_word_char(c),
{
    ('a' <= c && c <= 'z') || ('A' <= c && c <= 'Z') || ('0' <= c && c <= '9') || c == '_' || (c
        as u32) > 127
}

/// ASCII upper-case folding of one character.
pub open spec fn upper_char(c: char) -> char {
    if 'a' <= c && c <= 'z' {
        ((c as u32) - 32) as char
    } else {
        c
    }
}

/// Executable upper-case folding.
pub fn to_upper_char(c: char) -> (r: char)
    ensures
        r == upper_char(c),
{
    let u: u32 = c as u32;
    if 97 <= u && u <= 122 {
        let v: u32 = u - 32;
        let b: u8 = v as u8;
        proof {
            assert(((v as u8) as u32) == v) by (bit_vector)
                requires
                    65 <= v && v <= 90,
            ;
        }
        b as char
    } else {
        c
    }
}

/// ASCII upper-case folding of a character sequence.
pub open spec fn upper_seq(s: Seq<char>) -> Seq<char> {
    s.map_values(|c: char| upper_char(c))
}

/// Whether every character of the sequence is an ASCII digit. True of the
/// empty sequence, as for an emptily satisfied scan.
pub open spec fn all_digits(s: Seq<char>) -> bool {
    forall|i: int| 0 <= i < s.len() ==> is_digit(#[trigger] s[i])
}

/// Executable all-digits scan.
pub fn digits_only(v: &Vec<char>) -> (r: bool)
    ensures
        r == all_digits(v@),
{
    let mut i: usize = 0;
    while i < v.len()
        invariant
            0 <= i <= v@.len(),
            forall|j: int| 0 <= j < i ==> is_digit(#[trigger] v@[j]),
        decreases v@.len() - i,
    {
        if !digit(v[i]) {
            return false;
        }
        i += 1;
    }
    true
}

} // verus!
