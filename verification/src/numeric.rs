//! Verified parsing of numeric literal text.
//!
//! Numeric literals reach the parser in text form. LIMIT and OFFSET values
//! are read as unsigned 64-bit integers, integer literals as signed 64-bit
//! integers, and float literals are validated as sign-digits-dot-digits
//! text. Overflow is detected and reported as absence, exactly as the
//! specification functions describe.

use vstd::prelude::*;
use vstd::assert_by_contradiction;
use crate::chars::{digit, digit_val, is_digit};

verus! {

/// The value of a digit string, most significant first.
pub open spec fn digits_val(s: Seq<char>) -> int
    decreases s.len(),
{
    if s.len() == 0 {
        0
    } else {
        digits_val(s.drop_last()) * 10 + digit_val(s.last())
    }
}

/// A non-empty run of ASCII digits.
pub open spec fn is_digit_run(s: Seq<char>) -> bool {
    s.len() > 0 && forall|i: int| 0 <= i < s.len() ==> is_digit(#[trigger] s[i])
}

/// What u64 text parsing yields: an optional leading `+`, then a digit run
/// whose value fits.
pub open spec fn spec_parse_u64(s: Seq<char>) -> Option<u64> {
    let t = if s.len() > 0 && s[0] == '+' {
        s.skip(1)
    } else {
        s
    };
    if is_digit_run(t) && digits_val(t) <= u64::MAX {
        Some(digits_val(t) as u64)
    } else {
        None
    }
}

/// What i64 text parsing yields: an optional sign, then a digit run whose
/// value fits the signed range.
pub open spec fn spec_parse_i64(s: Seq<char>) -> Option<i64> {
    let neg = s.len() > 0 && s[0] == '-';
    let t = if s.len() > 0 && (s[0] == '+' || s[0] == '-') {
        s.skip(1)
    } else {
        s
    };
    if !is_digit_run(t) {
        None
    } else if neg {
        if digits_val(t) <= 0x8000_0000_0000_0000 {
            Some((-digits_val(t)) as i64)
        } else {
            None
        }
    } else {
        if digits_val(t) <= i64::MAX {
            Some(digits_val(t) as i64)
        } else {
            None
        }
    }
}

/// The number of dots in a character sequence.
pub open spec fn dot_count(s: Seq<char>) -> int
    decreases s.len(),
{
    if s.len() == 0 {
        0
    } else {
        dot_count(s.drop_last()) + (if s.last() == '.' {
            1int
        } else {
            0int
        })
    }
}

/// A valid unsigned float body: at least two characters, every character a
/// digit or a dot, and exactly one dot.
pub open spec fn float_body_ok(t: Seq<char>) -> bool {
    &&& t.len() >= 2
    &&& (forall|i: int| 0 <= i < t.len() ==> t[i] == '.' || is_digit(#[trigger] t[i]))
    &&& dot_count(t) == 1
}

/// Valid float literal text: an optional sign, then digits with exactly one
/// dot among them and at least one digit.
pub open spec fn is_float_text(s: Seq<char>) -> bool {
    if s.len() > 0 && (s[0] == '+' || s[0] == '-') {
        float_body_ok(s.skip(1))
    } else {
        float_body_ok(s)
    }
}

/// Digit-string values are non-negative.
proof fn lemma_digits_val_nonneg(s: Seq<char>)
    requires
        forall|i: int| 0 <= i < s.len() ==> is_digit(#[trigger] s[i]),
    ensures
        digits_val(s) >= 0,
    decreases s.len(),
{
    if s.len() > 0 {
        lemma_digits_val_nonneg(s.drop_last());
    }
}

/// A digit string is worth at least any of its prefixes.
proof fn lemma_digits_val_mono(s: Seq<char>, k: int)
    requires
        0 <= k <= s.len(),
        forall|i: int| 0 <= i < s.len() ==> is_digit(#[trigger] s[i]),
    ensures
        digits_val(s) >= digits_val(s.take(k)),
    decreases s.len() - k,
{
    if k < s.len() {
        assert(s.take(k + 1).drop_last() =~= s.take(k));
        assert(forall|i: int| 0 <= i < s.take(k).len() ==> is_digit(#[trigger] s.take(k)[i]));
        lemma_digits_val_nonneg(s.take(k));
        assert(digits_val(s.take(k + 1)) == digits_val(s.take(k)) * 10 + digit_val(s[k]));
        assert(digits_val(s.take(k)) * 10 >= digits_val(s.take(k))) by (nonlinear_arith)
            requires
                digits_val(s.take(k)) >= 0,
        ;
        assert(digit_val(s[k]) >= 0);
        lemma_digits_val_mono(s, k + 1);
    } else {
        assert(s.take(k) =~= s);
    }
}

/// A digit run scanned from `from` with values capped at `bound`: the value
/// if the text is a digit run that fits, absence otherwise.
fn parse_digits_bounded(v: &Vec<char>, from: usize, bound: u64) -> (r: Option<u64>)
    requires
        from <= v@.len(),
        bound >= 9,
    ensures
        match r {
            Some(a) => is_digit_run(v@.skip(from as int)) && digits_val(v@.skip(from as int))
                == a && a <= bound,
            None => !is_digit_run(v@.skip(from as int)) || digits_val(v@.skip(from as int))
                > bound,
        },
{
    let ghost t = v@.skip(from as int);
    let n: usize = v.len();
    if from == n {
        proof {
            assert(t.len() == 0);
        }
        return None;
    }
    let mut acc: u64 = 0;
    let mut j: usize = from;
    while j < n
        invariant
            from <= j <= n,
            n == v@.len(),
            bound >= 9,
            t == v@.skip(from as int),
            forall|m: int| from <= m < j ==> is_digit(#[trigger] v@[m]),
            acc == digits_val(t.take(j - from)),
            acc <= bound,
        decreases n - j,
    {
        let c = v[j];
        if !digit(c) {
            proof {
                assert(t[j - from] == v@[j as int]);
                assert(!is_digit_run(t));
            }
            return None;
        }
        let u: u32 = c as u32;
        let d: u64 = (u - 48) as u64;
        proof {
            assert(48 <= u && u <= 57);
            assert(d == digit_val(v@[j as int]));
        }
        if acc > (bound - d) / 10 {
            proof {
                assert(t.take(j - from + 1).drop_last() =~= t.take(j - from));
                assert(t.take(j - from + 1).last() == v@[j as int]);
                assert(digits_val(t.take(j - from + 1)) == acc * 10 + d);
                assert(acc * 10 + d > bound) by (nonlinear_arith)
                    requires
                        acc > (bound - d) / 10,
                        0 <= d <= 9,
                        d <= bound,
                        acc >= 0,
                ;
                if is_digit_run(t) {
                    lemma_digits_val_mono(t, j - from + 1);
                }
            }
            return None;
        }
        proof {
            assert(acc * 10 + d <= bound) by (nonlinear_arith)
                requires
                    acc <= (bound - d) / 10,
                    0 <= d <= 9,
                    d <= bound,
                    acc >= 0,
            ;
            assert(t.take(j - from + 1).drop_last() =~= t.take(j - from));
            assert(t.take(j - from + 1).last() == v@[j as int]);
        }
        acc = acc * 10 + d;
        j += 1;
    }
    proof {
        assert(t.take(j - from) =~= t);
        assert(is_digit_run(t));
    }
    Some(acc)
}

/// u64 parsing of numeric text, after the specification.
pub fn parse_u64_text(v: &Vec<char>) -> (r: Option<u64>)
    ensures
        r == spec_parse_u64(v@),
{
    let n: usize = v.len();
    let from: usize = if n > 0 && v[0] == '+' {
        1
    } else {
        0
    };
    proof {
        if from == 0 {
            assert(v@.skip(0) =~= v@);
        }
    }
    parse_digits_bounded(v, from, u64::MAX)
}

/// i64 parsing of numeric text, after the specification.
pub fn parse_i64_text(v: &Vec<char>) -> (r: Option<i64>)
    ensures
        r == spec_parse_i64(v@),
{
    let n: usize = v.len();
    let neg = n > 0 && v[0] == '-';
    let from: usize = if n > 0 && (v[0] == '+' || v[0] == '-') {
        1
    } else {
        0
    };
    proof {
        if from == 0 {
            assert(v@.skip(0) =~= v@);
        }
    }
    let bound: u64 = if neg {
        0x8000_0000_0000_0000
    } else {
        0x7fff_ffff_ffff_ffff
    };
    match parse_digits_bounded(v, from, bound) {
        Some(a) => {
            if neg {
                if a == 0x8000_0000_0000_0000 {
                    Some(i64::MIN)
                } else {
                    Some(-(a as i64))
                }
            } else {
                Some(a as i64)
            }
        },
        None => None,
    }
}

/// Float-text validation, after the specification.
pub fn is_float_literal(v: &Vec<char>) -> (r: bool)
    ensures
        r == is_float_text(v@),
{
    let n: usize = v.len();
    let from: usize = if n > 0 && (v[0] == '+' || v[0] == '-') {
        1
    } else {
        0
    };
    let ghost t = if v@.len() > 0 && (v@[0] == '+' || v@[0] == '-') {
        v@.skip(1)
    } else {
        v@
    };
    proof {
        if from == 0 {
            assert(v@.skip(0) =~= v@);
        }
        assert(t == v@.skip(from as int));
    }
    proof {
        if v@.len() > 0 && (v@[0] == '+' || v@[0] == '-') {
            assert(is_float_text(v@) == float_body_ok(t));
        } else {
            assert(is_float_text(v@) == float_body_ok(t));
        }
    }
    if n - from < 2 {
        proof {
            assert(t.len() < 2);
        }
        return false;
    }
    let mut dots: u64 = 0;
    let mut j: usize = from;
    while j < n
        invariant
            from <= j <= n,
            n == v@.len(),
            n - from >= 2,
            t == v@.skip(from as int),
            is_float_text(v@) == float_body_ok(t),
            forall|m: int| 0 <= m < j - from ==> t[m] == '.' || is_digit(#[trigger] t[m]),
            dots == dot_count(t.take(j - from)),
            dots <= 1,
        decreases n - j,
    {
        let c = v[j];
        proof {
            assert(t[j - from] == v@[j as int]);
            assert(t.take(j - from + 1).drop_last() =~= t.take(j - from));
            assert(t.take(j - from + 1).last() == t[j - from]);
        }
        if c == '.' {
            if dots >= 1 {
                proof {
                    lemma_dot_count_mono(t, j - from + 1);
                    assert(dot_count(t) >= 2);
                    assert(!float_body_ok(t));
                }
                return false;
            }
            dots = 1;
        } else if !digit(c) {
            proof {
                assert(!(t[j - from] == '.' || is_digit(t[j - from])));
                assert(!float_body_ok(t));
            }
            return false;
        }
        j += 1;
    }
    proof {
        assert(t.take(j - from) =~= t);
    }
    if dots == 1 {
        proof {
            assert(float_body_ok(t));
        }
        true
    } else {
        proof {
            assert(dot_count(t) == 0);
            assert(!float_body_ok(t));
        }
        false
    }
}

/// Dots never disappear as a digit-or-dot string grows.
proof fn lemma_dot_count_mono(s: Seq<char>, k: int)
    requires
        0 <= k <= s.len(),
    ensures
        dot_count(s) >= dot_count(s.take(k)),
    decreases s.len() - k,
{
    if k < s.len() {
        assert(s.take(k + 1).drop_last() =~= s.take(k));
        assert(dot_count(s.take(k + 1)) >= dot_count(s.take(k)));
        lemma_dot_count_mono(s, k + 1);
    } else {
        assert(s.take(k) =~= s);
    }
}

} // verus!
