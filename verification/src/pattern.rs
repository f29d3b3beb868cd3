//! The inline-script reference pattern: a run of reference characters
//! (ASCII word characters, dots, slashes, colons — see
//! `chars::is_ref_char`) followed immediately by the literal `js`, matched
//! lazily.  The scan yields the leftmost,
//! non-overlapping, shortest such matches, in order — each match is the
//! shortest reference-character run starting at the leftmost position not
//! yet consumed that ends in `js`.

use crate::chars::is_ref_char;
use crate::chars::is_ref_char_exec;
use vstd::prelude::*;
use vstd::string::StrSliceExecFns;
use vstd::string::StringExecFns;

verus! {

/// The end (exclusive) of the lazy match starting at `p`, if one exists:
/// the least `j >= p` with `s[j] == 'j'`, `s[j+1] == 's'` and every
/// character of `s[p..j]` a reference character, plus two.
pub open spec fn lazy_end(s: Seq<char>, p: int) -> Option<int>
    decreases s.len() - p,
    when 0 <= p <= s.len()
{
    if p + 2 <= s.len() && s[p] == 'j' && s[p + 1] == 's' {
        Some(p + 2)
    } else if p < s.len() && is_ref_char(s[p]) {
        lazy_end(s, p + 1)
    } else {
        None
    }
}

/// The matches found at or after the cursor `c`: at the leftmost position
/// where the pattern matches, the shortest match is taken, and the scan
/// resumes at its end.
pub open spec fn matches_from(s: Seq<char>, c: int) -> Seq<Seq<char>>
    decreases s.len() - c,
    when 0 <= c <= s.len()
    via matches_from_decreases
{
    if c >= s.len() {
        Seq::empty()
    } else {
        match lazy_end(s, c) {
            Some(e) => seq![s.subrange(c, e)] + matches_from(s, e),
            None => matches_from(s, c + 1),
        }
    }
}

#[via_fn]
proof fn matches_from_decreases(s: Seq<char>, c: int) {
    if c < s.len() && lazy_end(s, c) is Some {
        lemma_lazy_end_bounds(s, c);
    }
}

/// All matches of the inline-reference pattern in `s`, leftmost first.
pub open spec fn inline_matches(s: Seq<char>) -> Seq<Seq<char>> {
    matches_from(s, 0)
}

/// Bounds of a lazy match: it spans at least the two characters `js` and
/// ends within the string.
pub proof fn lemma_lazy_end_bounds(s: Seq<char>, p: int)
    requires
        0 <= p <= s.len(),
        lazy_end(s, p) is Some,
    ensures
        p + 2 <= lazy_end(s, p)->0 <= s.len(),
    decreases s.len() - p,
{
    if p + 2 <= s.len() && s[p] == 'j' && s[p + 1] == 's' {
    } else if p < s.len() && is_ref_char(s[p]) {
        lemma_lazy_end_bounds(s, p + 1);
    }
}

fn lazy_end_exec(s: &str, n: usize, p: usize) -> (r: Option<usize>)
    requires
        n == s@.len(),
        p <= n,
    ensures
        match r {
            Some(e) => lazy_end(s@, p as int) == Some(e as int) && p + 2 <= e <= n,
            None => lazy_end(s@, p as int) is None,
        },
{
    let mut q = p;
    while q < n
        invariant
            n == s@.len(),
            p <= q <= n,
            lazy_end(s@, p as int) == lazy_end(s@, q as int),
        decreases n - q,
    {
        if q + 1 < n && s.get_char(q) == 'j' && s.get_char(q + 1) == 's' {
            return Some(q + 2);
        }
        if !is_ref_char_exec(s.get_char(q)) {
            return None;
        }
        q = q + 1;
    }
    None
}

/// Scans `s` for the inline-reference pattern and returns all matches,
/// leftmost first.
pub fn find_inline_matches(s: &str) -> (r: Vec<String>)
    ensures
        r.deep_view() == inline_matches(s@),
{
    let n = s.unicode_len();
    let mut out: Vec<String> = Vec::new();
    let mut c: usize = 0;
    while c < n
        invariant
            n == s@.len(),
            0 <= c <= n,
            out.deep_view() + matches_from(s@, c as int) == inline_matches(s@),
        decreases n - c,
    {
        match lazy_end_exec(s, n, c) {
            Some(e) => {
                let ghost prev = out.deep_view();
                let m = String::from_str(s.substring_char(c, e));
                out.push(m);
                proof {
                    assert(out.deep_view() =~= prev.push(s@.subrange(c as int, e as int)));
                    assert(out.deep_view() + matches_from(s@, e as int) =~= inline_matches(s@));
                }
                c = e;
            },
            None => {
                c = c + 1;
            },
        }
    }
    proof {
        assert(out.deep_view() =~= out.deep_view() + matches_from(s@, c as int));
    }
    out
}

} // verus!
