//! Rewriting a raw script reference into an absolute URL relative to the
//! page it was found on.  Pure string construction: a protocol-relative
//! reference gets the page's scheme, an absolute path gets scheme and host,
//! and a bare relative path is joined to the host with a single slash; no
//! `..` resolution against the page's own path takes place.

use crate::chars::seq_starts_with;
use crate::weburl::ParsedUrl;
use vstd::prelude::*;
use vstd::string::StrSliceExecFns;
use vstd::string::StringExecFns;

verus! {

/// The reference is protocol-relative: `//host/path`.
pub open spec fn protocol_relative(js: Seq<char>) -> bool {
    js.len() >= 2 && js[0] == '/' && js[1] == '/'
}

/// The reference is an absolute path: `/path`.
pub open spec fn absolute_path(js: Seq<char>) -> bool {
    js.len() >= 1 && js[0] == '/'
}

/// The reference is already an absolute URL: it starts with `http://` or
/// `https://`.
pub open spec fn already_absolute(js: Seq<char>) -> bool {
    seq_starts_with(js, "http://"@) || seq_starts_with(js, "https://"@)
}

/// The absolute URL built for the reference `js` found on a page with the
/// given scheme and host, by the first applicable rule: protocol-relative,
/// absolute path, or bare relative path.
pub open spec fn normalize_spec(js: Seq<char>, scheme: Seq<char>, host: Seq<char>) -> Seq<char> {
    if protocol_relative(js) {
        scheme + ":"@ + js
    } else if absolute_path(js) {
        scheme + "://"@ + host + js
    } else {
        scheme + "://"@ + host + "/"@ + js
    }
}

/// `normalize_spec`, short-circuited for a reference that is already an
/// absolute URL: such a reference is returned unchanged.
pub open spec fn normalize_if_needed_spec(
    js: Seq<char>,
    scheme: Seq<char>,
    host: Seq<char>,
) -> Seq<char> {
    if already_absolute(js) {
        js
    } else {
        normalize_spec(js, scheme, host)
    }
}

/// Rewrites the reference `js`, found on the page `url`, into an absolute
/// URL.  Never fails: the page URL's host is non-empty by `wf`.
pub fn normalize(js: &str, url: &ParsedUrl) -> (r: String)
    requires
        url.wf(),
    ensures
        r@ == normalize_spec(js@, url.scheme@, url.host@),
{
    let n = js.unicode_len();
    let mut r = url.scheme.clone();
    if n >= 2 && js.get_char(0) == '/' && js.get_char(1) == '/' {
        r.append(":");
        r.append(js);
    } else if n >= 1 && js.get_char(0) == '/' {
        r.append("://");
        r.append(url.host.as_str());
        r.append(js);
    } else {
        r.append("://");
        r.append(url.host.as_str());
        r.append("/");
        r.append(js);
    }
    r
}

/// Rewrites the reference `js` unless it is already an absolute URL, in
/// which case it is returned unchanged.
pub fn normalize_if_needed(js: String, url: &ParsedUrl) -> (r: String)
    requires
        url.wf(),
    ensures
        r@ == normalize_if_needed_spec(js@, url.scheme@, url.host@),
{
    if crate::chars::starts_with_exec(js.as_str(), "http://") || crate::chars::starts_with_exec(
        js.as_str(),
        "https://",
    ) {
        js
    } else {
        normalize(js.as_str(), url)
    }
}

/// A reference that is already an absolute URL is a fixed point of
/// `normalize_if_needed_spec`: re-running the normalizer on its own output,
/// or on any `http://` or `https://` URL, changes nothing.
pub proof fn lemma_normalize_if_needed_fixed_point(js: Seq<char>, scheme: Seq<char>, host: Seq<char>)
    requires
        already_absolute(js),
    ensures
        normalize_if_needed_spec(js, scheme, host) == js,
        normalize_if_needed_spec(normalize_if_needed_spec(js, scheme, host), scheme, host) == js,
{
}

/// The normalizer's rules, stated for every page URL: a protocol-relative
/// reference `//x/y` becomes `scheme://x/y`, an absolute path `/a/b` becomes
/// `scheme://host/a/b`, a bare relative path `a/b` becomes
/// `scheme://host/a/b`, and an already-absolute reference passes through
/// `normalize_if_needed_spec` unchanged.
pub proof fn lemma_normalize_forms(scheme: Seq<char>, host: Seq<char>)
    ensures
        normalize_spec("//x/y"@, scheme, host) == scheme + ":"@ + "//x/y"@,
        normalize_spec("/a/b"@, scheme, host) == scheme + "://"@ + host + "/a/b"@,
        normalize_spec("a/b"@, scheme, host) == scheme + "://"@ + host + "/"@ + "a/b"@,
        normalize_if_needed_spec("https://other/x"@, scheme, host) == "https://other/x"@,
{
    reveal_strlit("//x/y");
    reveal_strlit("/a/b");
    reveal_strlit("a/b");
    reveal_strlit("https://other/x");
    reveal_strlit("https://");
    assert(seq_starts_with("https://other/x"@, "https://"@)) by {
        assert("https://other/x"@.subrange(0, 8) =~= "https://"@);
    }
}

} // verus!
