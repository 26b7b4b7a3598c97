//! Character-level text utilities shared by the lexical scanner, the
//! resolvers and the diagnostic translator.
//!
//! Buffers are held as `Vec<char>` so that cursor columns index characters
//! directly; the mathematical model of a buffer is its `Seq<char>` view.
use vstd::prelude::*;

verus! {

/// Identifier characters: ASCII letters, digits and the underscore.
pub open spec fn is_word_char(c: char) -> bool {
    (97 <= c as u32 && c as u32 <= 122) || (65 <= c as u32 && c as u32 <= 90)
        || (48 <= c as u32 && c as u32 <= 57) || c as u32 == 95
}

/// Executable test for [`is_word_char`].
pub fn word_char(c: char) -> (r: bool)
    ensures
        r == is_word_char(c),
{
    let u = c as u32;
    (97 <= u && u <= 122) || (65 <= u && u <= 90) || (48 <= u && u <= 57) || u == 95
}

/// Character-for-character equality of two buffers.
pub fn chars_eq(a: &Vec<char>, b: &Vec<char>) -> (r: bool)
    ensures
        r == (a@ == b@),
{
    if a.len() != b.len() {
        assert(a@ != b@) by {
            assert(a@.len() != b@.len());
        }
        return false;
    }
    let n = a.len();
    let mut i: usize = 0;
    while i < n
        invariant
            n == a@.len() == b@.len(),
            i <= n,
            forall|k: int| 0 <= k < i ==> a@[k] == b@[k],
        decreases n - i,
    {
        if a[i] != b[i] {
            return false;
        }
        i += 1;
    }
    proof {
        assert(a@ =~= b@);
    }
    true
}

/// Equality of the span `[start, end)` of a buffer with a string constant.
pub fn span_eq_lit(s: &Vec<char>, start: usize, end: usize, lit: &str) -> (r: bool)
    requires
        start <= end <= s@.len(),
    ensures
        r == (s@.subrange(start as int, end as int) == lit@),
{
    let n = lit.unicode_len();
    if end - start != n {
        assert(s@.subrange(start as int, end as int).len() == end - start);
        return false;
    }
    let mut i: usize = 0;
    while i < n
        invariant
            start <= end <= s@.len(),
            n == lit@.len(),
            end - start == n,
            i <= n,
            forall|k: int| 0 <= k < i ==> s@[start + k] == lit@[k],
        decreases n - i,
    {
        if s[start + i] != lit.get_char(i) {
            assert(s@.subrange(start as int, end as int)[i as int] != lit@[i as int]);
            return false;
        }
        i += 1;
    }
    proof {
        assert(s@.subrange(start as int, end as int) =~= lit@);
    }
    true
}

/// Whole-buffer equality with a string constant.
pub fn chars_eq_lit(s: &Vec<char>, lit: &str) -> (r: bool)
    ensures
        r == (s@ == lit@),
{
    let n = s.len();
    let r = span_eq_lit(s, 0, n, lit);
    proof {
        assert(s@.subrange(0, n as int) =~= s@);
    }
    r
}

/// `suffix` closes `s`: the last `suffix.len()` characters of `s` are `suffix`.
pub open spec fn ends_with(s: Seq<char>, suffix: Seq<char>) -> bool {
    s.len() >= suffix.len() && s.subrange(s.len() - suffix.len(), s.len() as int) == suffix
}

/// Executable test for [`ends_with`] against a string constant.
pub fn ends_with_lit(s: &Vec<char>, lit: &str) -> (r: bool)
    ensures
        r == ends_with(s@, lit@),
{
    let n = lit.unicode_len();
    if s.len() < n {
        return false;
    }
    let start = s.len() - n;
    span_eq_lit(s, start, s.len(), lit)
}

/// Appends a string constant to a character buffer.
pub fn push_lit(out: &mut Vec<char>, lit: &str)
    ensures
        final(out)@ == old(out)@ + lit@,
{
    let n = lit.unicode_len();
    let mut i: usize = 0;
    while i < n
        invariant
            n == lit@.len(),
            i <= n,
            out@ == old(out)@ + lit@.subrange(0, i as int),
        decreases n - i,
    {
        out.push(lit.get_char(i));
        proof {
            assert(old(out)@ + lit@.subrange(0, i as int) + seq![lit@[i as int]] =~= old(out)@
                + lit@.subrange(0, i + 1));
        }
        i += 1;
    }
    proof {
        assert(lit@.subrange(0, n as int) =~= lit@);
    }
}

/// Appends one buffer to another.
pub fn push_chars(out: &mut Vec<char>, s: &Vec<char>)
    ensures
        final(out)@ == old(out)@ + s@,
{
    let n = s.len();
    let mut i: usize = 0;
    while i < n
        invariant
            n == s@.len(),
            i <= n,
            out@ == old(out)@ + s@.subrange(0, i as int),
        decreases n - i,
    {
        out.push(s[i]);
        proof {
            assert(old(out)@ + s@.subrange(0, i as int) + seq![s@[i as int]] =~= old(out)@
                + s@.subrange(0, i + 1));
        }
        i += 1;
    }
    proof {
        assert(s@.subrange(0, n as int) =~= s@);
    }
}

/// Appends the span `[start, end)` of a buffer.
pub fn push_span(out: &mut Vec<char>, s: &Vec<char>, start: usize, end: usize)
    requires
        start <= end <= s@.len(),
    ensures
        final(out)@ == old(out)@ + s@.subrange(start as int, end as int),
{
    let mut i: usize = start;
    while i < end
        invariant
            start <= i <= end <= s@.len(),
            out@ == old(out)@ + s@.subrange(start as int, i as int),
        decreases end - i,
    {
        out.push(s[i]);
        proof {
            assert(old(out)@ + s@.subrange(start as int, i as int) + seq![s@[i as int]] =~= old(
                out,
            )@ + s@.subrange(start as int, i + 1));
        }
        i += 1;
    }
}

/// A fresh buffer with the same characters.
pub fn clone_chars(v: &Vec<char>) -> (r: Vec<char>)
    ensures
        r@ == v@,
{
    let r = span_to_vec(v, 0, v.len());
    proof {
        assert(v@.subrange(0, v@.len() as int) =~= v@);
    }
    r
}

/// What an optional buffer denotes: its characters, if it is there.
pub open spec fn opt_chars_view(o: Option<Vec<char>>) -> Option<Seq<char>> {
    match o {
        Some(v) => Some(v@),
        None => None,
    }
}

/// A fresh optional buffer with the same characters.
pub fn clone_opt_chars(o: &Option<Vec<char>>) -> (r: Option<Vec<char>>)
    ensures
        opt_chars_view(r) == opt_chars_view(*o),
{
    match o {
        Some(v) => Some(clone_chars(v)),
        None => None,
    }
}

/// The span `[start, end)` of a buffer as a fresh buffer.
pub fn span_to_vec(s: &Vec<char>, start: usize, end: usize) -> (r: Vec<char>)
    requires
        start <= end <= s@.len(),
    ensures
        r@ == s@.subrange(start as int, end as int),
{
    let mut out: Vec<char> = Vec::new();
    push_span(&mut out, s, start, end);
    proof {
        assert(Seq::<char>::empty() + s@.subrange(start as int, end as int) =~= s@.subrange(
            start as int,
            end as int,
        ));
    }
    out
}

} // verus!
