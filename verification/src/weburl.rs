//! The structured view of a page URL: its scheme and host as plain strings,
//! obtained once from the URL parser and carried through the rest of the
//! pipeline.

use vstd::prelude::*;

verus! {

/// A validated page URL, reduced to the two components the pipeline reads.
/// A value used as a fetch target satisfies `wf`: scheme and host non-empty.
pub struct ParsedUrl {
    pub scheme: String,
    pub host: String,
}

impl ParsedUrl {
    /// Well-formed: the URL has a scheme and a non-empty host.
    pub open spec fn wf(&self) -> bool {
        self.scheme@.len() > 0 && self.host@.len() > 0
    }
}

/// What the URL parser yields for a given input string, projected to the
/// scheme and, where the URL has an authority, the host: `None` where the
/// string does not parse as an absolute URL; otherwise the scheme paired
/// with the host string, absent where the URL has no host.
pub uninterp spec fn url_parts_of(s: Seq<char>) -> Option<(Seq<char>, Option<Seq<char>>)>;

/// The model of an exec parse result.
pub open spec fn parts_view(r: Option<(String, Option<String>)>) -> Option<
    (Seq<char>, Option<Seq<char>>),
> {
    match r {
        None => None,
        Some(p) => Some(
            (
                p.0@,
                match p.1 {
                    None => None,
                    Some(h) => Some(h@),
                },
            ),
        ),
    }
}

/// Relies on `url::Url::parse`, `Url::scheme` and `Url::host_str`: parsing
/// an absolute URL string and reading back its lower-cased scheme and, if it
/// has one, its host.  The result is a function of the input string alone;
/// the parser admits no URL whose scheme is empty (a scheme starts with an
/// ASCII letter).
#[verifier::external_body]
fn parse_scheme_host(s: &str) -> (r: Option<(String, Option<String>)>)
    ensures
        parts_view(r) == url_parts_of(s@),
        r matches Some(p) ==> p.0@.len() > 0,
{
    match url::Url::parse(s) {
        Ok(u) => {
            let scheme = u.scheme().to_string();
            match u.host_str() {
                Some(h) => Some((scheme, Some(h.to_string()))),
                None => Some((scheme, None)),
            }
        },
        Err(_) => None,
    }
}

/// How a candidate page URL is to be handled: rejected because it does not
/// parse, rejected because it has no (or an empty) host, or fetched.
pub enum UrlCheck {
    Invalid,
    NoHost,
    Fetch(ParsedUrl),
}

/// The model of `UrlCheck`, with the fetch target's scheme and host.
pub enum UrlCheckModel {
    Invalid,
    NoHost,
    Fetch(Seq<char>, Seq<char>),
}

impl View for UrlCheck {
    type V = UrlCheckModel;

    open spec fn view(&self) -> UrlCheckModel {
        match self {
            UrlCheck::Invalid => UrlCheckModel::Invalid,
            UrlCheck::NoHost => UrlCheckModel::NoHost,
            UrlCheck::Fetch(u) => UrlCheckModel::Fetch(u.scheme@, u.host@),
        }
    }
}

/// How the string `s` is handled, in terms of what the URL parser yields of
/// it: a parse failure is `Invalid`; a URL without a host, or with an empty
/// host string, is `NoHost`; anything else is fetched.
pub open spec fn url_check_spec(s: Seq<char>) -> UrlCheckModel {
    match url_parts_of(s) {
        None => UrlCheckModel::Invalid,
        Some(p) => match p.1 {
            None => UrlCheckModel::NoHost,
            Some(h) => if h.len() == 0 {
                UrlCheckModel::NoHost
            } else {
                UrlCheckModel::Fetch(p.0, h)
            },
        },
    }
}

/// Parses a candidate page URL and decides whether it is a fetch target.
/// A fetch target is well-formed: non-empty scheme and host.
pub fn check_url(s: &str) -> (c: UrlCheck)
    ensures
        c@ == url_check_spec(s@),
        c matches UrlCheck::Fetch(u) ==> u.wf(),
{
    match parse_scheme_host(s) {
        None => UrlCheck::Invalid,
        Some((scheme, host)) => match host {
            None => UrlCheck::NoHost,
            Some(h) => {
                if h.as_str().is_empty() {
                    UrlCheck::NoHost
                } else {
                    UrlCheck::Fetch(ParsedUrl { scheme, host: h })
                }
            },
        },
    }
}

} // verus!
