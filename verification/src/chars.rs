//! Character classes and small string predicates that the scanner and the
//! normalizer share.  All comparisons that ignore letter case go through
//! `lower_u`, the code point with an upper-case ASCII letter folded to its
//! lower-case form.

use vstd::prelude::*;
use vstd::string::StrSliceExecFns;

verus! {

/// The code point of `c`, with `A`..`Z` folded to `a`..`z`.
pub open spec fn lower_u(c: char) -> u32 {
    if 'A' as u32 <= c as u32 && c as u32 <= 'Z' as u32 {
        (c as u32 + 32) as u32
    } else {
        c as u32
    }
}

/// Two character sequences are equal up to ASCII letter case.
pub open spec fn ci_equal(a: Seq<char>, b: Seq<char>) -> bool {
    a.len() == b.len() && forall|i: int| 0 <= i < a.len() ==> lower_u(a[i]) == lower_u(b[i])
}

/// `p` is a prefix of `s`.
pub open spec fn seq_starts_with(s: Seq<char>, p: Seq<char>) -> bool {
    p.len() <= s.len() && s.subrange(0, p.len() as int) == p
}

/// An ASCII letter: a tag name starts with one.
pub open spec fn is_letter(c: char) -> bool {
    ('a' as u32 <= c as u32 && c as u32 <= 'z' as u32) || ('A' as u32 <= c as u32 && c as u32
        <= 'Z' as u32)
}

/// A character of a tag name: an ASCII letter or digit.
pub open spec fn is_name_char(c: char) -> bool {
    is_letter(c) || ('0' as u32 <= c as u32 && c as u32 <= '9' as u32)
}

/// ASCII whitespace as it separates attributes inside a tag.
pub open spec fn is_space(c: char) -> bool {
    c == ' ' || c == '\t' || c == '\n' || c == '\r' || c == '\x0c'
}

/// A character of a reference inside inline script text: a word character
/// (letter, digit or underscore), a dot, a slash or a colon.  The class is
/// deliberately ASCII-only, stated exactly here rather than leaning on a
/// Unicode word-character table: a non-ASCII character breaks a match, so
/// inline text such as `é.js` yields the match `.js`, not `é.js`.
pub open spec fn is_ref_char(c: char) -> bool {
    is_name_char(c) || c == '_' || c == '.' || c == '/' || c == ':'
}

pub fn lower_u_exec(c: char) -> (r: u32)
    ensures
        r == lower_u(c),
{
    let u = c as u32;
    if 65 <= u && u <= 90 {
        u + 32
    } else {
        u
    }
}

pub fn is_letter_exec(c: char) -> (r: bool)
    ensures
        r == is_letter(c),
{
    let u = c as u32;
    (97 <= u && u <= 122) || (65 <= u && u <= 90)
}

pub fn is_name_char_exec(c: char) -> (r: bool)
    ensures
        r == is_name_char(c),
{
    let u = c as u32;
    is_letter_exec(c) || (48 <= u && u <= 57)
}

pub fn is_space_exec(c: char) -> (r: bool)
    ensures
        r == is_space(c),
{
    c == ' ' || c == '\t' || c == '\n' || c == '\r' || c == '\x0c'
}

pub fn is_ref_char_exec(c: char) -> (r: bool)
    ensures
        r == is_ref_char(c),
{
    is_name_char_exec(c) || c == '_' || c == '.' || c == '/' || c == ':'
}

/// Whether `s` equals `t` up to ASCII letter case.
pub fn ci_equal_exec(s: &str, t: &str) -> (r: bool)
    ensures
        r == ci_equal(s@, t@),
{
    let sn = s.unicode_len();
    let tn = t.unicode_len();
    if sn != tn {
        return false;
    }
    let mut i: usize = 0;
    while i < sn
        invariant
            sn == s@.len(),
            tn == t@.len(),
            sn == tn,
            0 <= i <= sn,
            forall|j: int| 0 <= j < i ==> lower_u(s@[j]) == lower_u(t@[j]),
        decreases sn - i,
    {
        if lower_u_exec(s.get_char(i)) != lower_u_exec(t.get_char(i)) {
            return false;
        }
        i = i + 1;
    }
    true
}

/// Whether `p` is a prefix of `s`.
pub fn starts_with_exec(s: &str, p: &str) -> (r: bool)
    ensures
        r == seq_starts_with(s@, p@),
{
    let sn = s.unicode_len();
    let pn = p.unicode_len();
    if pn > sn {
        assert(!seq_starts_with(s@, p@));
        return false;
    }
    let mut i: usize = 0;
    while i < pn
        invariant
            sn == s@.len(),
            pn == p@.len(),
            pn <= sn,
            0 <= i <= pn,
            forall|j: int| 0 <= j < i ==> s@[j] == p@[j],
        decreases pn - i,
    {
        if s.get_char(i) != p.get_char(i) {
            assert(s@.subrange(0, p@.len() as int)[i as int] != p@[i as int]);
            return false;
        }
        i = i + 1;
    }
    proof {
        assert(s@.subrange(0, p@.len() as int) =~= p@);
    }
    true
}

} // verus!
