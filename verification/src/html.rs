//! A permissive, best-effort tag scanner for page text.  It discovers start
//! tags and their attributes without building a tree and never fails on
//! malformed input: anything that does not look like a tag is skipped as
//! text.  A `<script>` start tag additionally captures the raw text up to
//! the next `</script`, case-insensitively, so that inline script bodies can
//! be searched for references.
//!
//! The scanner's rules: a tag starts at `<` followed by an ASCII letter; the
//! tag name is the following run of letters and digits; attributes are
//! `name`, `name=value`, `name="value"` or `name='value'`, separated by
//! whitespace; the tag ends at the first `>`, and `/>` marks it
//! self-closing.  `</...`, `<!...` and `<?...` are skipped to the next `>`.
//! A tag or a quoted value left unterminated at the end of input ends the
//! scan.

use crate::chars::ci_equal;
use crate::chars::ci_equal_exec;
use crate::chars::is_letter;
use crate::chars::is_letter_exec;
use crate::chars::is_name_char;
use crate::chars::is_name_char_exec;
use crate::chars::is_space;
use crate::chars::is_space_exec;
use crate::chars::lower_u;
use crate::chars::lower_u_exec;
use vstd::prelude::*;
use vstd::string::StrSliceExecFns;
use vstd::string::StringExecFns;

verus! {

/// The model of an attribute: its name as written, and its value (empty for
/// a bare attribute).
pub struct AttrModel {
    pub name: Seq<char>,
    pub value: Seq<char>,
}

/// The model of a discovered element: the tag name as written, its
/// attributes in order, and, for a `script` element, its raw inline text.
pub struct ElemModel {
    pub name: Seq<char>,
    pub attrs: Seq<AttrModel>,
    pub text: Seq<char>,
}

/// An attribute of a discovered element.
pub struct Attr {
    pub name: String,
    pub value: String,
}

impl View for Attr {
    type V = AttrModel;

    open spec fn view(&self) -> AttrModel {
        AttrModel { name: self.name@, value: self.value@ }
    }
}

impl DeepView for Attr {
    type V = AttrModel;

    open spec fn deep_view(&self) -> AttrModel {
        self@
    }
}

/// An element discovered by the scanner.
pub struct Element {
    pub name: String,
    pub attrs: Vec<Attr>,
    pub text: String,
}

impl View for Element {
    type V = ElemModel;

    open spec fn view(&self) -> ElemModel {
        ElemModel { name: self.name@, attrs: self.attrs.deep_view(), text: self.text@ }
    }
}

impl DeepView for Element {
    type V = ElemModel;

    open spec fn deep_view(&self) -> ElemModel {
        self@
    }
}

/// A character that may stand in an attribute name: anything but
/// whitespace, `=`, `>` and `/`.
pub open spec fn is_attr_name_char(c: char) -> bool {
    !is_space(c) && c != '=' && c != '>' && c != '/'
}

/// A character that may stand in an unquoted attribute value: anything but
/// whitespace and `>`.
pub open spec fn is_unquoted_char(c: char) -> bool {
    !is_space(c) && c != '>'
}

/// The first position at or after `i` holding the character `c`, if any.
pub open spec fn find_char(s: Seq<char>, i: int, c: char) -> Option<int>
    decreases s.len() - i,
    when 0 <= i <= s.len()
{
    if i >= s.len() {
        None
    } else if s[i] == c {
        Some(i)
    } else {
        find_char(s, i + 1, c)
    }
}

pub proof fn lemma_find_char_bounds(s: Seq<char>, i: int, c: char)
    requires
        0 <= i <= s.len(),
        find_char(s, i, c) is Some,
    ensures
        i <= find_char(s, i, c)->0 < s.len(),
    decreases s.len() - i,
{
    if i < s.len() && s[i] != c {
        lemma_find_char_bounds(s, i + 1, c);
    }
}

/// The end of the run of tag-name characters starting at `i`.
pub open spec fn name_end(s: Seq<char>, i: int) -> int
    decreases s.len() - i,
    when 0 <= i <= s.len()
{
    if i < s.len() && is_name_char(s[i]) {
        name_end(s, i + 1)
    } else {
        i
    }
}

pub proof fn lemma_name_end_bounds(s: Seq<char>, i: int)
    requires
        0 <= i <= s.len(),
    ensures
        i <= name_end(s, i) <= s.len(),
    decreases s.len() - i,
{
    if i < s.len() && is_name_char(s[i]) {
        lemma_name_end_bounds(s, i + 1);
    }
}

/// The end of the run of attribute-name characters starting at `i`.
pub open spec fn attr_name_end(s: Seq<char>, i: int) -> int
    decreases s.len() - i,
    when 0 <= i <= s.len()
{
    if i < s.len() && is_attr_name_char(s[i]) {
        attr_name_end(s, i + 1)
    } else {
        i
    }
}

pub proof fn lemma_attr_name_end_bounds(s: Seq<char>, i: int)
    requires
        0 <= i <= s.len(),
    ensures
        i <= attr_name_end(s, i) <= s.len(),
    decreases s.len() - i,
{
    if i < s.len() && is_attr_name_char(s[i]) {
        lemma_attr_name_end_bounds(s, i + 1);
    }
}

/// The end of the run of unquoted-value characters starting at `i`.
pub open spec fn unquoted_end(s: Seq<char>, i: int) -> int
    decreases s.len() - i,
    when 0 <= i <= s.len()
{
    if i < s.len() && is_unquoted_char(s[i]) {
        unquoted_end(s, i + 1)
    } else {
        i
    }
}

pub proof fn lemma_unquoted_end_bounds(s: Seq<char>, i: int)
    requires
        0 <= i <= s.len(),
    ensures
        i <= unquoted_end(s, i) <= s.len(),
    decreases s.len() - i,
{
    if i < s.len() && is_unquoted_char(s[i]) {
        lemma_unquoted_end_bounds(s, i + 1);
    }
}

/// The attributes of a tag, parsed from `i` up to the closing `>`: the
/// attribute list, the position after the `>`, and whether the tag was
/// self-closing (`/>`).  `None` where the input ends before the tag closes.
pub open spec fn parse_attrs(s: Seq<char>, i: int) -> Option<(Seq<AttrModel>, int, bool)>
    decreases s.len() - i,
    when 0 <= i <= s.len()
    via parse_attrs_decreases
{
    if i >= s.len() {
        None
    } else if s[i] == '>' {
        Some((Seq::empty(), i + 1, false))
    } else if s[i] == '/' && i + 1 < s.len() && s[i + 1] == '>' {
        Some((Seq::empty(), i + 2, true))
    } else if is_space(s[i]) || s[i] == '/' {
        parse_attrs(s, i + 1)
    } else {
        let ne = attr_name_end(s, i);
        let name = s.subrange(i, ne);
        if ne < s.len() && s[ne] == '=' {
            if ne + 1 < s.len() && (s[ne + 1] == '"' || s[ne + 1] == '\'') {
                match find_char(s, ne + 2, s[ne + 1]) {
                    Some(q) => match parse_attrs(s, q + 1) {
                        Some(rest) => Some(
                            (
                                seq![AttrModel { name, value: s.subrange(ne + 2, q) }] + rest.0,
                                rest.1,
                                rest.2,
                            ),
                        ),
                        None => None,
                    },
                    None => None,
                }
            } else {
                let ve = unquoted_end(s, ne + 1);
                match parse_attrs(s, ve) {
                    Some(rest) => Some(
                        (
                            seq![AttrModel { name, value: s.subrange(ne + 1, ve) }] + rest.0,
                            rest.1,
                            rest.2,
                        ),
                    ),
                    None => None,
                }
            }
        } else {
            match parse_attrs(s, ne) {
                Some(rest) => Some(
                    (seq![AttrModel { name, value: Seq::empty() }] + rest.0, rest.1, rest.2),
                ),
                None => None,
            }
        }
    }
}

#[via_fn]
proof fn parse_attrs_decreases(s: Seq<char>, i: int) {
    if 0 <= i < s.len() {
        lemma_attr_name_end_bounds(s, i);
        let ne = attr_name_end(s, i);
        if !(s[i] == '>' || (s[i] == '/' && i + 1 < s.len() && s[i + 1] == '>') || is_space(s[i])
            || s[i] == '/') {
            if is_attr_name_char(s[i]) {
                assert(attr_name_end(s, i) == attr_name_end(s, i + 1));
                lemma_attr_name_end_bounds(s, i + 1);
            } else {
                assert(s[i] == '=' && ne == i);
            }
            if ne < s.len() && s[ne] == '=' {
                if ne + 1 < s.len() && (s[ne + 1] == '"' || s[ne + 1] == '\'') {
                    if find_char(s, ne + 2, s[ne + 1]) is Some {
                        lemma_find_char_bounds(s, ne + 2, s[ne + 1]);
                    }
                } else {
                    lemma_unquoted_end_bounds(s, ne + 1);
                }
            }
        }
    }
}

pub proof fn lemma_parse_attrs_bounds(s: Seq<char>, i: int)
    requires
        0 <= i <= s.len(),
        parse_attrs(s, i) is Some,
    ensures
        ({
            let (_, after, _) = parse_attrs(s, i)->0;
            i < after <= s.len()
        }),
    decreases s.len() - i,
{
    if i < s.len() {
        if s[i] == '>' || (s[i] == '/' && i + 1 < s.len() && s[i + 1] == '>') {
        } else if is_space(s[i]) || s[i] == '/' {
            lemma_parse_attrs_bounds(s, i + 1);
        } else {
            lemma_attr_name_end_bounds(s, i);
            let ne = attr_name_end(s, i);
            if is_attr_name_char(s[i]) {
                assert(attr_name_end(s, i) == attr_name_end(s, i + 1));
                lemma_attr_name_end_bounds(s, i + 1);
            } else {
                assert(s[i] == '=' && ne == i);
            }
            if ne < s.len() && s[ne] == '=' {
                if ne + 1 < s.len() && (s[ne + 1] == '"' || s[ne + 1] == '\'') {
                    if find_char(s, ne + 2, s[ne + 1]) is Some {
                        lemma_find_char_bounds(s, ne + 2, s[ne + 1]);
                        let q = find_char(s, ne + 2, s[ne + 1])->0;
                        lemma_parse_attrs_bounds(s, q + 1);
                    }
                } else {
                    lemma_unquoted_end_bounds(s, ne + 1);
                    lemma_parse_attrs_bounds(s, unquoted_end(s, ne + 1));
                }
            } else {
                lemma_parse_attrs_bounds(s, ne);
            }
        }
    }
}

/// Whether `</script` stands at position `i`, ignoring letter case.
pub open spec fn is_close_script_at(s: Seq<char>, i: int) -> bool {
    &&& i + 8 <= s.len()
    &&& s[i] == '<'
    &&& s[i + 1] == '/'
    &&& lower_u(s[i + 2]) == 's' as u32
    &&& lower_u(s[i + 3]) == 'c' as u32
    &&& lower_u(s[i + 4]) == 'r' as u32
    &&& lower_u(s[i + 5]) == 'i' as u32
    &&& lower_u(s[i + 6]) == 'p' as u32
    &&& lower_u(s[i + 7]) == 't' as u32
}

/// The first position at or after `i` where `</script` stands, if any.
pub open spec fn raw_end(s: Seq<char>, i: int) -> Option<int>
    decreases s.len() - i,
    when 0 <= i <= s.len()
{
    if i >= s.len() {
        None
    } else if is_close_script_at(s, i) {
        Some(i)
    } else {
        raw_end(s, i + 1)
    }
}

pub proof fn lemma_raw_end_bounds(s: Seq<char>, i: int)
    requires
        0 <= i <= s.len(),
        raw_end(s, i) is Some,
    ensures
        i <= raw_end(s, i)->0,
        raw_end(s, i)->0 + 8 <= s.len(),
    decreases s.len() - i,
{
    if i < s.len() && !is_close_script_at(s, i) {
        lemma_raw_end_bounds(s, i + 1);
    }
}

/// Every element the scanner discovers at or after position `i`, in
/// document order.  A `script` start tag that is not self-closing captures
/// the raw text up to the next `</script` (or the end of input) and the
/// scan resumes after that close tag's `>`.
pub open spec fn scan_elems(s: Seq<char>, i: int) -> Seq<ElemModel>
    decreases s.len() - i,
    when 0 <= i <= s.len()
    via scan_elems_decreases
{
    if i >= s.len() {
        Seq::empty()
    } else if s[i] == '<' && i + 1 < s.len() && is_letter(s[i + 1]) {
        let ne = name_end(s, i + 1);
        let name = s.subrange(i + 1, ne);
        match parse_attrs(s, ne) {
            None => Seq::empty(),
            Some((attrs, after, selfclose)) => {
                if ci_equal(name, "script"@) && !selfclose {
                    match raw_end(s, after) {
                        None => seq![
                            ElemModel { name, attrs, text: s.subrange(after, s.len() as int) },
                        ],
                        Some(t) => {
                            let el = ElemModel { name, attrs, text: s.subrange(after, t) };
                            let resume = match find_char(s, t + 8, '>') {
                                Some(g) => g + 1,
                                None => s.len() as int,
                            };
                            seq![el] + scan_elems(s, resume)
                        },
                    }
                } else {
                    seq![ElemModel { name, attrs, text: Seq::empty() }] + scan_elems(s, after)
                }
            },
        }
    } else if s[i] == '<' && i + 1 < s.len() && (s[i + 1] == '/' || s[i + 1] == '!' || s[i + 1]
        == '?') {
        match find_char(s, i + 2, '>') {
            Some(g) => scan_elems(s, g + 1),
            None => Seq::empty(),
        }
    } else {
        scan_elems(s, i + 1)
    }
}

#[via_fn]
proof fn scan_elems_decreases(s: Seq<char>, i: int) {
    if 0 <= i < s.len() {
        if s[i] == '<' && i + 1 < s.len() && is_letter(s[i + 1]) {
            lemma_name_end_bounds(s, i + 1);
            let ne = name_end(s, i + 1);
            if parse_attrs(s, ne) is Some {
                lemma_parse_attrs_bounds(s, ne);
                let (_, after, _) = parse_attrs(s, ne)->0;
                if raw_end(s, after) is Some {
                    lemma_raw_end_bounds(s, after);
                    let t = raw_end(s, after)->0;
                    if find_char(s, t + 8, '>') is Some {
                        lemma_find_char_bounds(s, t + 8, '>');
                    }
                }
            }
        } else if s[i] == '<' && i + 1 < s.len() && (s[i + 1] == '/' || s[i + 1] == '!' || s[i + 1]
            == '?') {
            if find_char(s, i + 2, '>') is Some {
                lemma_find_char_bounds(s, i + 2, '>');
            }
        }
    }
}

/// The elements of the whole document.
pub open spec fn elements_of(s: Seq<char>) -> Seq<ElemModel> {
    scan_elems(s, 0)
}

fn find_char_exec(s: &str, n: usize, i: usize, c: char) -> (r: Option<usize>)
    requires
        n == s@.len(),
        i <= n,
    ensures
        match r {
            Some(j) => find_char(s@, i as int, c) == Some(j as int) && i <= j < n,
            None => find_char(s@, i as int, c) is None,
        },
{
    let mut q = i;
    while q < n
        invariant
            n == s@.len(),
            i <= q <= n,
            find_char(s@, i as int, c) == find_char(s@, q as int, c),
        decreases n - q,
    {
        if s.get_char(q) == c {
            return Some(q);
        }
        q = q + 1;
    }
    None
}

fn name_end_exec(s: &str, n: usize, i: usize) -> (r: usize)
    requires
        n == s@.len(),
        i <= n,
    ensures
        r == name_end(s@, i as int),
        i <= r <= n,
{
    let mut q = i;
    while q < n && is_name_char_exec(s.get_char(q))
        invariant
            n == s@.len(),
            i <= q <= n,
            name_end(s@, i as int) == name_end(s@, q as int),
        decreases n - q,
    {
        q = q + 1;
    }
    q
}

fn attr_name_end_exec(s: &str, n: usize, i: usize) -> (r: usize)
    requires
        n == s@.len(),
        i <= n,
    ensures
        r == attr_name_end(s@, i as int),
        i <= r <= n,
{
    let mut q = i;
    while q < n && is_attr_name_char_exec(s.get_char(q))
        invariant
            n == s@.len(),
            i <= q <= n,
            attr_name_end(s@, i as int) == attr_name_end(s@, q as int),
        decreases n - q,
    {
        q = q + 1;
    }
    q
}

fn unquoted_end_exec(s: &str, n: usize, i: usize) -> (r: usize)
    requires
        n == s@.len(),
        i <= n,
    ensures
        r == unquoted_end(s@, i as int),
        i <= r <= n,
{
    let mut q = i;
    while q < n && is_unquoted_char_exec(s.get_char(q))
        invariant
            n == s@.len(),
            i <= q <= n,
            unquoted_end(s@, i as int) == unquoted_end(s@, q as int),
        decreases n - q,
    {
        q = q + 1;
    }
    q
}

fn is_attr_name_char_exec(c: char) -> (r: bool)
    ensures
        r == is_attr_name_char(c),
{
    !is_space_exec(c) && c != '=' && c != '>' && c != '/'
}

fn is_unquoted_char_exec(c: char) -> (r: bool)
    ensures
        r == is_unquoted_char(c),
{
    !is_space_exec(c) && c != '>'
}

fn is_close_script_at_exec(s: &str, n: usize, i: usize) -> (r: bool)
    requires
        n == s@.len(),
        i <= n,
    ensures
        r == is_close_script_at(s@, i as int),
{
    i <= n && n - i >= 8 && s.get_char(i) == '<' && s.get_char(i + 1) == '/' && lower_u_exec(
        s.get_char(i + 2),
    ) == 115 && lower_u_exec(s.get_char(i + 3)) == 99 && lower_u_exec(s.get_char(i + 4)) == 114
        && lower_u_exec(s.get_char(i + 5)) == 105 && lower_u_exec(s.get_char(i + 6)) == 112
        && lower_u_exec(s.get_char(i + 7)) == 116
}

fn raw_end_exec(s: &str, n: usize, i: usize) -> (r: Option<usize>)
    requires
        n == s@.len(),
        i <= n,
    ensures
        match r {
            Some(t) => raw_end(s@, i as int) == Some(t as int) && i <= t && t + 8 <= n,
            None => raw_end(s@, i as int) is None,
        },
{
    let mut q = i;
    while q < n
        invariant
            n == s@.len(),
            i <= q <= n,
            raw_end(s@, i as int) == raw_end(s@, q as int),
        decreases n - q,
    {
        if is_close_script_at_exec(s, n, q) {
            return Some(q);
        }
        q = q + 1;
    }
    None
}

fn parse_attrs_exec(s: &str, n: usize, i: usize) -> (r: Option<(Vec<Attr>, usize, bool)>)
    requires
        n == s@.len(),
        i <= n,
    ensures
        match r {
            Some(t) => parse_attrs(s@, i as int) == Some((t.0.deep_view(), t.1 as int, t.2)) && i
                < t.1 <= n,
            None => parse_attrs(s@, i as int) is None,
        },
    decreases n - i,
{
    if i >= n {
        return None;
    }
    let c = s.get_char(i);
    if c == '>' {
        return Some((Vec::new(), i + 1, false));
    }
    if c == '/' && i + 1 < n && s.get_char(i + 1) == '>' {
        return Some((Vec::new(), i + 2, true));
    }
    if is_space_exec(c) || c == '/' {
        return parse_attrs_exec(s, n, i + 1);
    }
    let ne = attr_name_end_exec(s, n, i);
    proof {
        if is_attr_name_char(s@[i as int]) {
            assert(attr_name_end(s@, i as int) == attr_name_end(s@, i as int + 1));
            lemma_attr_name_end_bounds(s@, i as int + 1);
        } else {
            assert(s@[i as int] == '=' && ne == i);
        }
    }
    let name = String::from_str(s.substring_char(i, ne));
    if ne < n && s.get_char(ne) == '=' {
        let quote = if ne + 1 < n {
            s.get_char(ne + 1)
        } else {
            ' '
        };
        if ne + 1 < n && (quote == '"' || quote == '\'') {
            match find_char_exec(s, n, ne + 2, quote) {
                Some(q) => {
                    let value = String::from_str(s.substring_char(ne + 2, q));
                    match parse_attrs_exec(s, n, q + 1) {
                        Some((mut attrs, after, selfclose)) => {
                            let ghost prev = attrs.deep_view();
                            attrs.insert(0, Attr { name, value });
                            proof {
                                assert(attrs.deep_view() =~= seq![
                                    AttrModel {
                                        name: s@.subrange(i as int, ne as int),
                                        value: s@.subrange(ne + 2 as int, q as int),
                                    },
                                ] + prev);
                            }
                            Some((attrs, after, selfclose))
                        },
                        None => None,
                    }
                },
                None => None,
            }
        } else {
            let ve = unquoted_end_exec(s, n, ne + 1);
            let value = String::from_str(s.substring_char(ne + 1, ve));
            match parse_attrs_exec(s, n, ve) {
                Some((mut attrs, after, selfclose)) => {
                    let ghost prev = attrs.deep_view();
                    attrs.insert(0, Attr { name, value });
                    proof {
                        assert(attrs.deep_view() =~= seq![
                            AttrModel {
                                name: s@.subrange(i as int, ne as int),
                                value: s@.subrange(ne + 1 as int, ve as int),
                            },
                        ] + prev);
                    }
                    Some((attrs, after, selfclose))
                },
                None => None,
            }
        }
    } else {
        let value = String::new();
        match parse_attrs_exec(s, n, ne) {
            Some((mut attrs, after, selfclose)) => {
                let ghost prev = attrs.deep_view();
                attrs.insert(0, Attr { name, value });
                proof {
                    assert(attrs.deep_view() =~= seq![
                        AttrModel {
                            name: s@.subrange(i as int, ne as int),
                            value: Seq::empty(),
                        },
                    ] + prev);
                }
                Some((attrs, after, selfclose))
            },
            None => None,
        }
    }
}

/// Scans the whole document and returns every element the scanner
/// discovers, in document order.
pub fn scan_elements(s: &str) -> (r: Vec<Element>)
    ensures
        r.deep_view() == elements_of(s@),
{
    let n = s.unicode_len();
    let mut out: Vec<Element> = Vec::new();
    let mut i: usize = 0;
    while i < n
        invariant
            n == s@.len(),
            0 <= i <= n,
            out.deep_view() + scan_elems(s@, i as int) == elements_of(s@),
        decreases n - i,
    {
        let c = s.get_char(i);
        if c == '<' && i + 1 < n && is_letter_exec(s.get_char(i + 1)) {
            let ne = name_end_exec(s, n, i + 1);
            let name = String::from_str(s.substring_char(i + 1, ne));
            match parse_attrs_exec(s, n, ne) {
                None => {
                    proof {
                        assert(out.deep_view() + scan_elems(s@, n as int) =~= elements_of(s@));
                    }
                    i = n;
                },
                Some((attrs, after, selfclose)) => {
                    let is_script = ci_equal_exec(name.as_str(), "script");
                    if is_script && !selfclose {
                        match raw_end_exec(s, n, after) {
                            None => {
                                let text = String::from_str(s.substring_char(after, n));
                                let ghost prev = out.deep_view();
                                out.push(Element { name, attrs, text });
                                proof {
                                    assert(out.deep_view() =~= prev.push(
                                        scan_elems(s@, i as int)[0],
                                    ));
                                    assert(out.deep_view() + scan_elems(s@, n as int)
                                        =~= elements_of(s@));
                                }
                                i = n;
                            },
                            Some(t) => {
                                let text = String::from_str(s.substring_char(after, t));
                                let ghost prev = out.deep_view();
                                out.push(Element { name, attrs, text });
                                let resume = match find_char_exec(s, n, t + 8, '>') {
                                    Some(g) => g + 1,
                                    None => n,
                                };
                                proof {
                                    assert(out.deep_view() =~= prev.push(
                                        scan_elems(s@, i as int)[0],
                                    ));
                                    assert(out.deep_view() + scan_elems(s@, resume as int)
                                        =~= elements_of(s@));
                                }
                                i = resume;
                            },
                        }
                    } else {
                        let text = String::new();
                        let ghost prev = out.deep_view();
                        out.push(Element { name, attrs, text });
                        proof {
                            assert(out.deep_view() =~= prev.push(scan_elems(s@, i as int)[0]));
                            assert(out.deep_view() + scan_elems(s@, after as int) =~= elements_of(
                                s@,
                            ));
                        }
                        i = after;
                    }
                },
            }
        } else if c == '<' && i + 1 < n && (s.get_char(i + 1) == '/' || s.get_char(i + 1) == '!'
            || s.get_char(i + 1) == '?') {
            match find_char_exec(s, n, i + 2, '>') {
                Some(g) => {
                    i = g + 1;
                },
                None => {
                    proof {
                        assert(out.deep_view() + scan_elems(s@, n as int) =~= elements_of(s@));
                    }
                    i = n;
                },
            }
        } else {
            i = i + 1;
        }
    }
    proof {
        assert(out.deep_view() =~= out.deep_view() + scan_elems(s@, i as int));
    }
    out
}

} // verus!
