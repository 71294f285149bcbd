//! Small string and character-sequence utilities shared by the lexer.

use vstd::prelude::*;

verus! {

/// Relies on String::push from std: appends one character to the string.
pub assume_specification [ std::string::String::push ](s: &mut std::string::String, ch: char)
    ensures
        final(s)@ == old(s)@.push(ch),
;

/// The characters of a string slice as a vector.
pub fn str_to_chars(s: &str) -> (v: Vec<char>)
    ensures
        v@ == s@,
{
    let n: usize = s.unicode_len();
    let mut v: Vec<char> = Vec::new();
    let mut i: usize = 0;
    while i < n
        invariant
            0 <= i <= n,
            n == s@.len(),
            v@ == s@.subrange(0, i as int),
        decreases n - i,
    {
        v.push(s.get_char(i));
        proof {
            assert(v@ =~= s@.subrange(0, i + 1 as int));
        }
        i += 1;
    }
    proof {
        assert(v@ =~= s@);
    }
    v
}

/// A character vector collected into a string.
pub fn chars_to_string(v: &Vec<char>) -> (s: String)
    ensures
        s@ == v@,
{
    let mut s = String::new();
    let mut i: usize = 0;
    while i < v.len()
        invariant
            0 <= i <= v@.len(),
            s@ == v@.subrange(0, i as int),
        decreases v@.len() - i,
    {
        s.push(v[i]);
        proof {
            assert(s@ =~= v@.subrange(0, i + 1 as int));
        }
        i += 1;
    }
    proof {
        assert(s@ =~= v@);
    }
    s
}

/// Whether two string slices hold the same characters.
pub fn str_eq(a: &str, b: &str) -> (r: bool)
    ensures
        r == (a@ == b@),
{
    let na: usize = a.unicode_len();
    let nb: usize = b.unicode_len();
    if na != nb {
        proof {
            assert(a@ != b@);
        }
        return false;
    }
    let mut i: usize = 0;
    while i < na
        invariant
            0 <= i <= na,
            na == a@.len(),
            na == b@.len(),
            forall|j: int| 0 <= j < i ==> a@[j] == b@[j],
        decreases na - i,
    {
        if a.get_char(i) != b.get_char(i) {
            return false;
        }
        i += 1;
    }
    proof {
        assert(a@ =~= b@);
    }
    true
}

/// Whether `pat` occurs in `s` starting at index `i`.
pub open spec fn contains_at(s: Seq<char>, i: int, pat: Seq<char>) -> bool {
    &&& 0 <= i
    &&& i + pat.len() <= s.len()
    &&& s.subrange(i, i + pat.len()) =~= pat
}

/// Whether `pat` occurs anywhere in `s`.
pub open spec fn contains_seq(s: Seq<char>, pat: Seq<char>) -> bool {
    exists|i: int| contains_at(s, i, pat)
}

/// Every occurrence of the non-empty pattern `pat` in `s`, scanned from the
/// left without overlap, replaced by `rep`. This is the behaviour of
/// str::replace.
pub open spec fn replace_all(s: Seq<char>, pat: Seq<char>, rep: Seq<char>) -> Seq<char>
    recommends
        pat.len() > 0,
    decreases s.len(),
{
    if s.len() == 0 || pat.len() == 0 {
        s
    } else if contains_at(s, 0, pat) {
        rep + replace_all(s.skip(pat.len() as int), pat, rep)
    } else {
        seq![s[0]] + replace_all(s.skip(1), pat, rep)
    }
}

/// Executable prefix test: whether `pat` occurs in `v` at index `i`.
pub fn match_at(v: &Vec<char>, i: usize, pat: &Vec<char>) -> (r: bool)
    requires
        i <= v@.len(),
    ensures
        r == contains_at(v@, i as int, pat@),
{
    let n: usize = v.len();
    if pat.len() > n - i {
        proof {
            assert(!contains_at(v@, i as int, pat@));
        }
        return false;
    }
    let mut j: usize = 0;
    while j < pat.len()
        invariant
            0 <= j <= pat@.len(),
            n == v@.len(),
            i + pat@.len() <= n,
            forall|k: int| 0 <= k < j ==> v@[i + k] == pat@[k],
        decreases pat@.len() - j,
    {
        if v[i + j] != pat[j] {
            proof {
                assert(v@.subrange(i as int, i + pat@.len())[j as int] == v@[i + j]);
                assert(!contains_at(v@, i as int, pat@));
            }
            return false;
        }
        j += 1;
    }
    proof {
        assert(v@.subrange(i as int, i + pat@.len()) =~= pat@);
    }
    true
}

/// Executable replacement of every left-to-right occurrence of `pat` by
/// `rep`, after str::replace.
pub fn replace_chars(v: &Vec<char>, pat: &Vec<char>, rep: &Vec<char>) -> (r: Vec<char>)
    requires
        pat@.len() > 0,
    ensures
        r@ == replace_all(v@, pat@, rep@),
{
    let mut out: Vec<char> = Vec::new();
    let mut i: usize = 0;
    proof {
        assert(v@.skip(0) =~= v@);
    }
    let n: usize = v.len();
    while i < n
        invariant
            0 <= i <= n,
            n == v@.len(),
            pat@.len() > 0,
            replace_all(v@, pat@, rep@) == out@ + replace_all(v@.skip(i as int), pat@, rep@),
        decreases n - i,
    {
        let ghost tail = v@.skip(i as int);
        proof {
            assert(tail.len() == v@.len() - i);
        }
        if match_at(v, i, pat) {
            proof {
                lemma_contains_at_skip(v@, i as int, pat@);
                assert(contains_at(tail, 0, pat@));
                assert(replace_all(tail, pat@, rep@) == rep@ + replace_all(
                    tail.skip(pat@.len() as int),
                    pat@,
                    rep@,
                ));
                assert(tail.skip(pat@.len() as int) =~= v@.skip(i + pat@.len()));
            }
            let ghost out_before = out@;
            let mut j: usize = 0;
            while j < rep.len()
                invariant
                    0 <= j <= rep@.len(),
                    out@ == out_before + rep@.subrange(0, j as int),
                decreases rep@.len() - j,
            {
                out.push(rep[j]);
                proof {
                    assert(out@ =~= out_before + rep@.subrange(0, j + 1 as int));
                }
                j += 1;
            }
            proof {
                assert(rep@.subrange(0, rep@.len() as int) =~= rep@);
                assert(out@ == out_before + rep@);
                assert((out_before + rep@) + replace_all(v@.skip(i + pat@.len()), pat@, rep@)
                    =~= out_before + (rep@ + replace_all(v@.skip(i + pat@.len()), pat@, rep@)));
            }
            i += pat.len();
        } else {
            proof {
                lemma_contains_at_skip(v@, i as int, pat@);
                assert(!contains_at(tail, 0, pat@));
                assert(tail[0] == v@[i as int]);
                assert(tail.skip(1) =~= v@.skip(i + 1));
                assert(replace_all(tail, pat@, rep@) == seq![tail[0]] + replace_all(
                    tail.skip(1),
                    pat@,
                    rep@,
                ));
                assert(out@.push(v@[i as int]) =~= out@ + seq![v@[i as int]]);
                assert((out@ + seq![v@[i as int]]) + replace_all(v@.skip(i + 1), pat@, rep@)
                    =~= out@ + (seq![v@[i as int]] + replace_all(v@.skip(i + 1), pat@, rep@)));
            }
            out.push(v[i]);
            i += 1;
        }
    }
    proof {
        assert(v@.skip(i as int) =~= Seq::<char>::empty());
        assert(out@ + Seq::<char>::empty() =~= out@);
    }
    out
}

/// Occurrence of a pattern within the tail `s.skip(i)` is occurrence at the
/// shifted index.
pub proof fn lemma_contains_at_skip(s: Seq<char>, i: int, pat: Seq<char>)
    requires
        0 <= i <= s.len(),
    ensures
        contains_at(s, i, pat) == contains_at(s.skip(i), 0, pat),
{
    if contains_at(s, i, pat) {
        assert(s.skip(i).subrange(0, pat.len() as int) =~= pat);
    }
    if contains_at(s.skip(i), 0, pat) {
        assert(s.subrange(i, i + pat.len()) =~= pat);
    }
}

} // verus!
