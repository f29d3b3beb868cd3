//! Extraction of raw script references from page text, and their
//! normalization against the page's URL.  Two independent rules, whose
//! results are concatenated: for every `script` element, its `src`
//! attribute (if present) followed by the matches of the inline-reference
//! pattern in its inline text; then, for every `div` element, its
//! `data-script-src` attribute (if present).  Every reference, whatever its
//! source, is normalized only if needed: one that is already an absolute
//! URL passes through unchanged, so an inline match such as
//! `https://cdn/x.js` is never prefixed a second time.

use crate::chars::ci_equal;
use crate::chars::ci_equal_exec;
use crate::html::Attr;
use crate::html::AttrModel;
use crate::html::ElemModel;
use crate::html::Element;
use crate::html::elements_of;
use crate::html::scan_elements;
use crate::normalize::normalize_if_needed;
use crate::normalize::normalize_if_needed_spec;
use crate::pattern::find_inline_matches;
use crate::pattern::inline_matches;
use crate::weburl::ParsedUrl;
use vstd::prelude::*;
use vstd::string::StringExecFns;

verus! {

/// The model of a raw reference: its text, and whether it came from a tag
/// attribute (as opposed to a match inside inline script text).
pub struct RawRefModel {
    pub text: Seq<char>,
    pub from_attr: bool,
}

/// An unnormalized script reference found in a page.
pub struct RawRef {
    pub text: String,
    pub from_attr: bool,
}

impl View for RawRef {
    type V = RawRefModel;

    open spec fn view(&self) -> RawRefModel {
        RawRefModel { text: self.text@, from_attr: self.from_attr }
    }
}

impl DeepView for RawRef {
    type V = RawRefModel;

    open spec fn deep_view(&self) -> RawRefModel {
        self@
    }
}

/// The value of the first attribute whose name equals `name` up to ASCII
/// letter case, if any.
pub open spec fn attr_value(attrs: Seq<AttrModel>, name: Seq<char>) -> Option<Seq<char>>
    decreases attrs.len(),
{
    if attrs.len() == 0 {
        None
    } else if ci_equal(attrs[0].name, name) {
        Some(attrs[0].value)
    } else {
        attr_value(attrs.drop_first(), name)
    }
}

/// The element is a `script` element.
pub open spec fn is_script_elem(e: ElemModel) -> bool {
    ci_equal(e.name, "script"@)
}

/// The element is a `div` element.
pub open spec fn is_div_elem(e: ElemModel) -> bool {
    ci_equal(e.name, "div"@)
}

/// Each inline-text match as a raw reference.
pub open spec fn inline_refs(ts: Seq<Seq<char>>) -> Seq<RawRefModel> {
    ts.map_values(|t: Seq<char>| RawRefModel { text: t, from_attr: false })
}

/// The references a single `script` element yields: its `src` attribute if
/// present, then the matches of the inline-reference pattern in its inline
/// text.  A non-script element yields nothing here.
pub open spec fn script_elem_refs(e: ElemModel) -> Seq<RawRefModel> {
    if is_script_elem(e) {
        (match attr_value(e.attrs, "src"@) {
            Some(v) => seq![RawRefModel { text: v, from_attr: true }],
            None => Seq::empty(),
        }) + inline_refs(inline_matches(e.text))
    } else {
        Seq::empty()
    }
}

/// The reference a single `div` element yields: its `data-script-src`
/// attribute if present.
pub open spec fn div_elem_refs(e: ElemModel) -> Seq<RawRefModel> {
    if is_div_elem(e) {
        match attr_value(e.attrs, "data-script-src"@) {
            Some(v) => seq![RawRefModel { text: v, from_attr: true }],
            None => Seq::empty(),
        }
    } else {
        Seq::empty()
    }
}

/// All references the `script` rule yields over a sequence of elements.
pub open spec fn script_refs(els: Seq<ElemModel>) -> Seq<RawRefModel>
    decreases els.len(),
{
    if els.len() == 0 {
        Seq::empty()
    } else {
        script_elem_refs(els[0]) + script_refs(els.drop_first())
    }
}

/// All references the `div` rule yields over a sequence of elements.
pub open spec fn div_refs(els: Seq<ElemModel>) -> Seq<RawRefModel>
    decreases els.len(),
{
    if els.len() == 0 {
        Seq::empty()
    } else {
        div_elem_refs(els[0]) + div_refs(els.drop_first())
    }
}

/// Every raw reference in the page text: the `script` rule's references
/// first, then the `div` rule's.
pub open spec fn raw_refs_of(s: Seq<char>) -> Seq<RawRefModel> {
    script_refs(elements_of(s)) + div_refs(elements_of(s))
}

fn attr_value_exec(attrs: &Vec<Attr>, name: &str) -> (r: Option<String>)
    ensures
        match r {
            Some(v) => attr_value(attrs.deep_view(), name@) == Some(v@),
            None => attr_value(attrs.deep_view(), name@) is None,
        },
{
    let n = attrs.len();
    proof {
        assert(attrs.deep_view().skip(0) =~= attrs.deep_view());
    }
    let mut k: usize = 0;
    while k < n
        invariant
            n == attrs.len(),
            0 <= k <= n,
            attrs.deep_view().len() == n,
            attr_value(attrs.deep_view(), name@) == attr_value(
                attrs.deep_view().skip(k as int),
                name@,
            ),
        decreases n - k,
    {
        proof {
            assert(attrs.deep_view().skip(k as int)[0] == attrs.deep_view()[k as int]);
            assert(attrs.deep_view().skip(k as int).drop_first() =~= attrs.deep_view().skip(
                k as int + 1,
            ));
        }
        if ci_equal_exec(attrs[k].name.as_str(), name) {
            return Some(attrs[k].value.clone());
        }
        k = k + 1;
    }
    None
}

fn script_elem_refs_exec(e: &Element) -> (r: Vec<RawRef>)
    ensures
        r.deep_view() == script_elem_refs(e@),
{
    let mut out: Vec<RawRef> = Vec::new();
    if !ci_equal_exec(e.name.as_str(), "script") {
        proof {
            assert(out.deep_view() =~= script_elem_refs(e@));
        }
        return out;
    }
    match attr_value_exec(&e.attrs, "src") {
        Some(v) => {
            out.push(RawRef { text: v, from_attr: true });
        },
        None => {},
    }
    let ghost head = out.deep_view();
    let ms = find_inline_matches(e.text.as_str());
    let ghost msv = inline_matches(e.text@);
    let mn = ms.len();
    proof {
        assert(inline_refs(msv.take(0)) =~= Seq::<RawRefModel>::empty());
    }
    let mut k: usize = 0;
    while k < mn
        invariant
            mn == ms.len(),
            0 <= k <= mn,
            ms.deep_view() == msv,
            out.deep_view() =~= head + inline_refs(msv.take(k as int)),
        decreases mn - k,
    {
        let m = ms[k].clone();
        proof {
            assert(ms.deep_view()[k as int] == ms@[k as int].deep_view());
            assert(m@ == msv[k as int]);
        }
        let ghost prev = out.deep_view();
        out.push(RawRef { text: m, from_attr: false });
        proof {
            assert(out.deep_view() =~= prev.push(RawRefModel { text: msv[k as int], from_attr: false }));
            assert(inline_refs(msv.take(k as int + 1)) =~= inline_refs(msv.take(k as int)).push(
                RawRefModel { text: msv[k as int], from_attr: false },
            ));
            assert(out.deep_view() =~= head + inline_refs(msv.take(k as int + 1)));
        }
        k = k + 1;
    }
    proof {
        assert(msv.take(mn as int) =~= msv);
        assert(out.deep_view() =~= script_elem_refs(e@));
    }
    out
}

fn div_elem_refs_exec(e: &Element) -> (r: Vec<RawRef>)
    ensures
        r.deep_view() == div_elem_refs(e@),
{
    let mut out: Vec<RawRef> = Vec::new();
    if ci_equal_exec(e.name.as_str(), "div") {
        match attr_value_exec(&e.attrs, "data-script-src") {
            Some(v) => {
                out.push(RawRef { text: v, from_attr: true });
            },
            None => {},
        }
    }
    proof {
        assert(out.deep_view() =~= div_elem_refs(e@));
    }
    out
}

/// Scans the page text and returns every raw script reference it holds, in
/// the order the extraction rules define.
pub fn extract(text: &str) -> (r: Vec<RawRef>)
    ensures
        r.deep_view() == raw_refs_of(text@),
{
    let els = scan_elements(text);
    let ghost elsv = elements_of(text@);
    let n = els.len();
    let mut out: Vec<RawRef> = Vec::new();
    proof {
        assert(elsv.skip(0) =~= elsv);
        assert(out.deep_view() + script_refs(elsv.skip(0)) =~= script_refs(elsv));
    }
    let mut k: usize = 0;
    while k < n
        invariant
            n == els.len(),
            0 <= k <= n,
            els.deep_view() == elsv,
            out.deep_view() + script_refs(elsv.skip(k as int)) =~= script_refs(elsv),
        decreases n - k,
    {
        proof {
            assert(elsv.skip(k as int)[0] == elsv[k as int]);
            assert(elsv.skip(k as int).drop_first() =~= elsv.skip(k as int + 1));
        }
        let mut part = script_elem_refs_exec(&els[k]);
        let ghost prev = out.deep_view();
        let ghost partv = part.deep_view();
        out.append(&mut part);
        proof {
            assert(out.deep_view() =~= prev + partv);
        }
        k = k + 1;
    }
    proof {
        assert(elsv.skip(n as int) =~= Seq::<ElemModel>::empty());
        assert(out.deep_view() =~= script_refs(elsv));
        assert(elsv.skip(0) =~= elsv);
        assert(out.deep_view() + div_refs(elsv.skip(0)) =~= script_refs(elsv) + div_refs(elsv));
    }
    let mut k2: usize = 0;
    while k2 < n
        invariant
            n == els.len(),
            0 <= k2 <= n,
            els.deep_view() == elsv,
            out.deep_view() + div_refs(elsv.skip(k2 as int)) =~= script_refs(elsv) + div_refs(
                elsv,
            ),
        decreases n - k2,
    {
        proof {
            assert(elsv.skip(k2 as int)[0] == elsv[k2 as int]);
            assert(elsv.skip(k2 as int).drop_first() =~= elsv.skip(k2 as int + 1));
        }
        let mut part = div_elem_refs_exec(&els[k2]);
        let ghost prev = out.deep_view();
        let ghost partv = part.deep_view();
        out.append(&mut part);
        proof {
            assert(out.deep_view() =~= prev + partv);
        }
        k2 = k2 + 1;
    }
    proof {
        assert(elsv.skip(n as int) =~= Seq::<ElemModel>::empty());
        assert(out.deep_view() =~= raw_refs_of(text@));
    }
    out
}

/// The absolute URL built for one raw reference: normalized only if
/// needed, whatever the reference's source — one that is already an
/// absolute URL is kept unchanged rather than prefixed a second time.
pub open spec fn normalize_ref_spec(r: RawRefModel, scheme: Seq<char>, host: Seq<char>) -> Seq<
    char,
> {
    normalize_if_needed_spec(r.text, scheme, host)
}

/// Each raw reference of `rs`, normalized against the page's scheme and
/// host, in order.
pub open spec fn normalized_results(rs: Seq<RawRefModel>, scheme: Seq<char>, host: Seq<char>) -> Seq<
    Seq<char>,
> {
    rs.map_values(|r: RawRefModel| normalize_ref_spec(r, scheme, host))
}

/// Every result the page yields: each raw reference of `raw_refs_of`,
/// normalized against the page's scheme and host, in extraction order.
pub open spec fn page_results_spec(s: Seq<char>, scheme: Seq<char>, host: Seq<char>) -> Seq<
    Seq<char>,
> {
    normalized_results(raw_refs_of(s), scheme, host)
}

/// Extracts every script reference from the page text and rewrites each
/// into an absolute URL relative to the page's URL.
pub fn scrape_text(text: &str, page: &ParsedUrl) -> (r: Vec<String>)
    requires
        page.wf(),
    ensures
        r.deep_view() == page_results_spec(text@, page.scheme@, page.host@),
{
    let refs = extract(text);
    let ghost refsv = raw_refs_of(text@);
    let n = refs.len();
    let mut out: Vec<String> = Vec::new();
    proof {
        assert(out.deep_view() =~= normalized_results(refsv.take(0), page.scheme@, page.host@));
    }
    let mut k: usize = 0;
    while k < n
        invariant
            n == refs.len(),
            0 <= k <= n,
            refs.deep_view() == refsv,
            page.wf(),
            out.deep_view() =~= normalized_results(refsv.take(k as int), page.scheme@, page.host@),
        decreases n - k,
    {
        proof {
            assert(refs.deep_view()[k as int] == refs@[k as int].deep_view());
            assert(refs@[k as int]@ == refsv[k as int]);
        }
        let u = normalize_if_needed(refs[k].text.clone(), page);
        let ghost prev = out.deep_view();
        out.push(u);
        proof {
            assert(out.deep_view() =~= prev.push(
                normalize_ref_spec(refsv[k as int], page.scheme@, page.host@),
            ));
            assert(normalized_results(refsv.take(k as int + 1), page.scheme@, page.host@)
                =~= normalized_results(refsv.take(k as int), page.scheme@, page.host@).push(
                normalize_ref_spec(refsv[k as int], page.scheme@, page.host@),
            ));
        }
        k = k + 1;
    }
    proof {
        assert(refsv.take(n as int) =~= refsv);
        assert(out.deep_view() =~= page_results_spec(text@, page.scheme@, page.host@));
    }
    out
}

} // verus!
