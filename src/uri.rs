//! URL and URI parsing through the `url` and `http` crates.
use vstd::prelude::*;
use crate::bytes::{all_visible, opt_chars};

verus! {

/// The characters of an ASCII byte string.
pub open spec fn chars_of(b: Seq<u8>) -> Seq<char> {
    Seq::new(b.len(), |i: int| b[i] as char)
}

/// Relies on `String::from_utf8_lossy`, which decodes ASCII bytes one character each.
#[verifier::external_body]
pub(crate) fn ascii_string(b: &[u8]) -> (r: String)
    requires
        all_visible(b@),
    ensures
        r@ == chars_of(b@),
{
    String::from_utf8_lossy(b).into_owned()
}

/// A parsed absolute URL: its serialization and its host.
pub struct ParsedUrl {
    pub href: String,
    pub host: Option<String>,
}

pub struct UrlView {
    pub href: Seq<char>,
    pub host: Option<Seq<char>>,
}

impl View for ParsedUrl {
    type V = UrlView;

    open spec fn view(&self) -> UrlView {
        UrlView {
            href: self.href@,
            host: match self.host {
                Some(h) => Some(h@),
                None => None,
            },
        }
    }
}

/// The URL that `url::Url::parse` makes of a text, as serialization and host.
pub uninterp spec fn url_parse(text: Seq<char>) -> Option<(Seq<char>, Option<Seq<char>>)>;

/// The URL that `url::Url::join` makes of a reference against a base URL.
pub uninterp spec fn url_join(base: Seq<char>, reference: Seq<char>) -> Option<
    (Seq<char>, Option<Seq<char>>),
>;

pub open spec fn as_url_view(p: Option<(Seq<char>, Option<Seq<char>>)>) -> Option<UrlView> {
    match p {
        Some(u) => Some(UrlView { href: u.0, host: u.1 }),
        None => None,
    }
}

pub open spec fn opt_url_view(p: Option<ParsedUrl>) -> Option<UrlView> {
    match p {
        Some(u) => Some(u@),
        None => None,
    }
}

/// Relies on `url::Url::parse`, read back through `Url::as_str` and `Url::host_str`.
#[verifier::external_body]
pub(crate) fn parse_url(text: &str) -> (r: Option<ParsedUrl>)
    ensures
        opt_url_view(r) == as_url_view(url_parse(text@)),
{
    url::Url::parse(text).ok().map(
        |u| ParsedUrl { href: u.as_str().to_string(), host: u.host_str().map(|h| h.to_string()) },
    )
}

/// Relies on `url::Url::join` on the URL that `base` serializes, read back
/// through `Url::as_str` and `Url::host_str`.
#[verifier::external_body]
pub(crate) fn join_url(base: &str, reference: &str) -> (r: Option<ParsedUrl>)
    ensures
        opt_url_view(r) == as_url_view(url_join(base@, reference@)),
{
    let base = match url::Url::parse(base) {
        Ok(b) => b,
        Err(_) => return None,
    };
    base.join(reference).ok().map(
        |u| ParsedUrl { href: u.as_str().to_string(), host: u.host_str().map(|h| h.to_string()) },
    )
}

/// The scheme, authority and host that `http::Uri` reads from a text, or
/// `None` where it is not a URI.
pub uninterp spec fn uri_parts(text: Seq<char>) -> Option<
    (Option<Seq<char>>, Option<Seq<char>>, Option<Seq<char>>),
>;

/// The parts of a URI that proxy selection reads.
pub struct UriParts {
    pub scheme: Option<String>,
    pub authority: Option<String>,
    pub host: Option<String>,
}

pub open spec fn parts_view(p: UriParts) -> (Option<Seq<char>>, Option<Seq<char>>, Option<Seq<char>>) {
    (opt_chars(p.scheme), opt_chars(p.authority), opt_chars(p.host))
}

/// Relies on `http::Uri`'s `FromStr`, read back through `Uri::scheme_str`,
/// `Uri::authority` and `Uri::host`.
#[verifier::external_body]
pub(crate) fn parse_uri(text: &str) -> (r: Option<UriParts>)
    ensures
        match r {
            Some(p) => uri_parts(text@) == Some(parts_view(p)),
            None => uri_parts(text@) is None,
        },
{
    text.parse::<http::Uri>().ok().map(
        |u| UriParts {
            scheme: u.scheme_str().map(|s| s.to_string()),
            authority: u.authority().map(|a| a.as_str().to_string()),
            host: u.host().map(|h| h.to_string()),
        },
    )
}

} // verus!
