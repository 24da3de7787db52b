//! Configuration of the libcurl transport: its proxy and how an intercepting
//! proxy is handed to libcurl.
use vstd::prelude::*;
use crate::base64_codec::{base64_decode, base64_decoded};
use crate::bytes::{all_visible, ascii_of, is_all_visible, literal, starts_with, to_vec};
use crate::proxy::{Intercept, Proxy, ProxyConfigView};

verus! {

broadcast use vstd::string::group_string_axioms;

/// Relies on `std::str::from_utf8`: whether the bytes are valid UTF-8.
#[verifier::external_body]
fn is_utf8(b: &[u8]) -> (r: bool)
    ensures
        r == vstd::utf8::valid_utf8(b@),
{
    std::str::from_utf8(b).is_ok()
}

pub open spec fn lower_char(c: char) -> char {
    if 'A' <= c <= 'Z' {
        ((c as u32) + 32) as char
    } else {
        c
    }
}

/// Relies on `str::to_ascii_lowercase`: ASCII letters in lowercase, every other character kept.
#[verifier::external_body]
fn ascii_lowercase(s: &str) -> (r: String)
    ensures
        r@ == s@.map_values(|c: char| lower_char(c)),
{
    s.to_ascii_lowercase()
}

/// Errors of the libcurl transport.
#[derive(Debug)]
pub enum CurlError {
    /// The request could not be handed to libcurl.
    BadRequest(String),
    /// libcurl failed to reach the server or read its answer.
    BadGateway(String),
}

impl CurlError {
    pub fn bad_request(message: String) -> (r: CurlError)
        ensures
            r matches CurlError::BadRequest(m) && m@ == message@,
    {
        CurlError::BadRequest(message)
    }

    pub fn bad_gateway(message: String) -> (r: CurlError)
        ensures
            r matches CurlError::BadGateway(m) && m@ == message@,
    {
        CurlError::BadGateway(message)
    }

    /// 400 for a bad request, 502 for a failed exchange.
    pub fn status(&self) -> (r: u16)
        ensures
            r == match self {
                CurlError::BadRequest(_) => 400u16,
                CurlError::BadGateway(_) => 502u16,
            },
    {
        match self {
            CurlError::BadRequest(_) => 400,
            CurlError::BadGateway(_) => 502,
        }
    }
}

/// The HTTP transport backed by libcurl.
pub struct CurlBackend {
    proxy: Option<Proxy>,
}

impl CurlBackend {
    /// A backend without a proxy.
    pub fn new() -> (r: CurlBackend)
        ensures
            r.proxy_view() is None,
    {
        CurlBackend { proxy: None }
    }

    /// A backend that goes through `proxy`.
    pub fn with_proxy(proxy: Proxy) -> (r: CurlBackend)
        ensures
            r.proxy_view() == Some(proxy@),
    {
        CurlBackend { proxy: Some(proxy) }
    }

    pub closed spec fn proxy_view(&self) -> Option<crate::proxy::MatcherView> {
        match self.proxy {
            Some(p) => Some(p@),
            None => None,
        }
    }

    /// The backend with `proxy` in place of its own.
    pub fn proxy(self, proxy: Proxy) -> (r: CurlBackend)
        ensures
            r.proxy_view() == Some(proxy@),
    {
        CurlBackend::with_proxy(proxy)
    }

    /// The proxy for a request URI, where one is configured and applies.
    pub fn intercept(&self, uri: &str) -> (r: Option<Intercept>)
        ensures
            match self.proxy_view() {
                None => r is None,
                Some(m) => match r {
                    Some(i) => crate::proxy::intercept_of(m, uri@) == Some(i@),
                    None => crate::proxy::intercept_of(m, uri@) is None,
                },
            },
    {
        match &self.proxy {
            Some(p) => p.intercept(uri),
            None => None,
        }
    }
}

/// How libcurl talks to a proxy.
#[derive(Clone, Copy, Debug, PartialEq, Eq, Structural)]
pub enum ProxyKind {
    Http,
    Socks4,
    Socks4a,
    Socks5,
    Socks5Hostname,
}

/// A proxy as libcurl takes it: endpoint, kind and `user:password`.
pub struct ResolvedProxy {
    pub endpoint: String,
    pub kind: ProxyKind,
    pub credentials: Option<Vec<u8>>,
}

/// The user and password in a `Basic` header value: the decoded text up to
/// its first `:` and the rest (empty where there is no `:`).
pub open spec fn basic_credentials(value: Seq<u8>) -> Option<(Seq<u8>, Seq<u8>)> {
    let prefix = ascii_of("Basic "@);
    if all_visible(value) && prefix.len() <= value.len() && value.take(prefix.len() as int)
        == prefix {
        match base64_decoded(value.skip(prefix.len() as int)) {
            Some(d) => if vstd::utf8::valid_utf8(d) {
                match crate::proxy::first_index(d, 58) {
                    Some(i) => Some((d.take(i), d.skip(i + 1))),
                    None => Some((d, Seq::empty())),
                }
            } else {
                None
            },
            None => None,
        }
    } else {
        None
    }
}

/// Reads the user and password out of a `Basic` header value.
pub fn decode_basic_auth(value: &[u8]) -> (r: Option<(Vec<u8>, Vec<u8>)>)
    ensures
        match r {
            Some(p) => basic_credentials(value@) == Some((p.0@, p.1@)),
            None => basic_credentials(value@) is None,
        },
{
    proof {
        reveal_strlit("Basic ");
    }
    if !is_all_visible(value) {
        return None;
    }
    let prefix = literal("Basic ");
    if !starts_with(value, prefix.as_slice()) {
        return None;
    }
    let encoded = &value[prefix.len()..value.len()];
    assert(encoded@ =~= value@.skip(prefix@.len() as int));
    let decoded = match base64_decode(encoded) {
        Some(d) => d,
        None => return None,
    };
    if !is_utf8(decoded.as_slice()) {
        return None;
    }
    match crate::proxy::find_first(decoded.as_slice(), 58) {
        Some(i) => {
            proof {
                crate::proxy::lemma_first_index_bound(decoded@, 58);
            }
            assert(i < decoded.len());
            let user = &decoded.as_slice()[0..i];
            let pass = &decoded.as_slice()[i + 1..decoded.len()];
            assert(user@ =~= decoded@.take(i as int));
            assert(pass@ =~= decoded@.skip(i + 1));
            Some((to_vec(user), to_vec(pass)))
        },
        None => Some((decoded, Vec::new())),
    }
}

fn join_credentials(user: &[u8], pass: &[u8]) -> (r: Vec<u8>)
    ensures
        r@ == user@ + ascii_of(":"@) + pass@,
{
    proof {
        reveal_strlit(":");
    }
    let mut v = to_vec(user);
    crate::bytes::append_bytes(&mut v, literal(":").as_slice());
    crate::bytes::append_bytes(&mut v, pass);
    v
}

pub open spec fn lower_ascii(s: Seq<char>) -> Seq<char> {
    s.map_values(|c: char| lower_char(c))
}

/// The kind and credentials for a proxy scheme: HTTP proxies use the
/// credentials of the `Basic` value, SOCKS proxies the user information;
/// other schemes have none.
pub open spec fn kind_for(scheme: Seq<char>, c: ProxyConfigView) -> Option<(ProxyKind, Option<Seq<u8>>)> {
    let basic = match c.basic_auth {
        Some(v) => match basic_credentials(v) {
            Some(p) => Some(p.0 + ascii_of(":"@) + p.1),
            None => None,
        },
        None => None,
    };
    let raw = match c.raw_auth {
        Some(p) => Some(p.0 + ascii_of(":"@) + p.1),
        None => None,
    };
    if scheme == "http"@ || scheme == "https"@ {
        Some((ProxyKind::Http, basic))
    } else if scheme == "socks4"@ {
        Some((ProxyKind::Socks4, raw))
    } else if scheme == "socks4a"@ {
        Some((ProxyKind::Socks4a, raw))
    } else if scheme == "socks5"@ {
        Some((ProxyKind::Socks5, raw))
    } else if scheme == "socks5h"@ {
        Some((ProxyKind::Socks5Hostname, raw))
    } else {
        None
    }
}

pub open spec fn scheme_of(c: ProxyConfigView) -> Seq<char> {
    lower_ascii(
        match c.uri.0 {
            Some(s) => s,
            None => "http"@,
        },
    )
}

/// How libcurl reaches the proxy that a request was matched to: the
/// endpoint `scheme://authority` (the scheme in lowercase, `http` when
/// missing), with the kind and credentials for that scheme.
pub fn resolve_proxy(intercept: &Intercept) -> (r: Result<ResolvedProxy, CurlError>)
    ensures
        intercept@.uri.1 is None ==> r matches Err(CurlError::BadRequest(_)),
        intercept@.uri.1 matches Some(auth) ==> match kind_for(scheme_of(intercept@), intercept@) {
            None => r matches Err(CurlError::BadRequest(_)),
            Some((kind, creds)) => r matches Ok(p) && p.kind == kind && p.endpoint@ == scheme_of(
                intercept@,
            ) + "://"@ + auth && match p.credentials {
                Some(v) => creds == Some(v@),
                None => creds is None,
            },
        },
{
    proof {
        reveal_strlit("http");
        reveal_strlit("https");
        reveal_strlit("socks4");
        reveal_strlit("socks4a");
        reveal_strlit("socks5");
        reveal_strlit("socks5h");
        reveal_strlit("://");
        reveal_strlit(":");
    }
    let raw_scheme: &str = match intercept.scheme() {
        Some(s) => s.as_str(),
        None => "http",
    };
    let scheme = ascii_lowercase(raw_scheme);
    let authority = match intercept.uri() {
        Some(a) => a,
        None => return Err(CurlError::bad_request("proxy URI missing authority".to_owned())),
    };
    let mut endpoint = scheme.clone();
    endpoint.append("://");
    endpoint.append(authority.as_str());
    let basic = match intercept.basic_auth() {
        Some(v) => match decode_basic_auth(v.as_slice()) {
            Some(p) => Some(join_credentials(p.0.as_slice(), p.1.as_slice())),
            None => None,
        },
        None => None,
    };
    let raw = match intercept.raw_auth() {
        Some(p) => Some(join_credentials(p.0, p.1)),
        None => None,
    };
    let kind = if scheme == "http".to_owned() || scheme == "https".to_owned() {
        return Ok(ResolvedProxy { endpoint, kind: ProxyKind::Http, credentials: basic });
    } else if scheme == "socks4".to_owned() {
        ProxyKind::Socks4
    } else if scheme == "socks4a".to_owned() {
        ProxyKind::Socks4a
    } else if scheme == "socks5".to_owned() {
        ProxyKind::Socks5
    } else if scheme == "socks5h".to_owned() {
        ProxyKind::Socks5Hostname
    } else {
        return Err(CurlError::bad_request("unsupported proxy scheme".to_owned()));
    };
    Ok(ResolvedProxy { endpoint, kind, credentials: raw })
}

} // verus!
