//! Proxy selection: which proxy, if any, a request URI goes through, with
//! the credentials that the proxy URL carries.
use vstd::prelude::*;
use crate::bytes::{append_bytes, ascii_of, ends_with, literal, opt_chars, string_bytes, to_vec, utf8};
use crate::base64_codec::{base64_encode, base64_text};
use crate::uri::{parse_uri, parts_view, uri_parts, UriParts};

verus! {

broadcast use vstd::string::group_string_axioms;

/// The lowercase form of a text as `str::to_lowercase` gives it.
pub uninterp spec fn lower_of(s: Seq<char>) -> Seq<char>;

/// Relies on `str::to_lowercase`: the Unicode lowercase of the text.
#[verifier::external_body]
fn lowercase(s: &str) -> (r: String)
    ensures
        r@ == lower_of(s@),
{
    s.to_lowercase()
}

/// The pieces of `s` between commas, empty pieces included, as `str::split(',')` gives them.
pub open spec fn comma_pieces(s: Seq<char>) -> Seq<Seq<char>>
    decreases s.len(),
{
    if s.len() == 0 {
        seq![Seq::<char>::empty()]
    } else {
        let p = comma_pieces(s.drop_last());
        if s.last() == ',' {
            p.push(Seq::<char>::empty())
        } else {
            p.drop_last().push(p.last().push(s.last()))
        }
    }
}

pub open spec fn strings_view(v: Seq<String>) -> Seq<Seq<char>> {
    Seq::new(v.len(), |i: int| v[i]@)
}

/// Relies on `str::split` with a `','` pattern.
#[verifier::external_body]
fn split_commas(s: &str) -> (r: Vec<String>)
    ensures
        strings_view(r@) == comma_pieces(s@),
{
    s.split(',').map(|p| p.to_string()).collect()
}

/// The `NO_PROXY` entries that a comma-separated list adds: its non-empty
/// pieces, in lowercase.
pub open spec fn no_proxy_entries(pieces: Seq<Seq<char>>) -> Seq<Seq<char>>
    decreases pieces.len(),
{
    if pieces.len() == 0 {
        Seq::empty()
    } else {
        let rest = no_proxy_entries(pieces.drop_last());
        if pieces.last().len() == 0 {
            rest
        } else {
            rest.push(lower_of(pieces.last()))
        }
    }
}

fn parse_no_proxy(list: &str, entries: &mut Vec<String>)
    ensures
        strings_view(final(entries)@) == strings_view(old(entries)@) + no_proxy_entries(
            comma_pieces(list@),
        ),
{
    let pieces = split_commas(list);
    let ghost base = strings_view(entries@);
    let mut i: usize = 0;
    assert(strings_view(pieces@).take(0) =~= Seq::<Seq<char>>::empty());
    assert(base =~= base + Seq::<Seq<char>>::empty());
    while i < pieces.len()
        invariant
            i <= pieces@.len(),
            strings_view(pieces@) == comma_pieces(list@),
            strings_view(entries@) == base + no_proxy_entries(strings_view(pieces@).take(i as int)),
        decreases pieces@.len() - i,
    {
        assert(strings_view(pieces@).take(i + 1).drop_last() =~= strings_view(pieces@).take(
            i as int,
        ));
        let p = &pieces[i];
        if !p.as_str().is_empty() {
            let ghost before = entries@;
            entries.push(lowercase(p.as_str()));
            assert(strings_view(entries@) =~= strings_view(before).push(lower_of(p@)));
        }
        i = i + 1;
    }
    assert(strings_view(pieces@).take(i as int) =~= strings_view(pieces@));
}

/// Where `b` first occurs in `s`.
pub open spec fn first_index(s: Seq<u8>, b: u8) -> Option<int>
    decreases s.len(),
{
    if s.len() == 0 {
        None
    } else if s[0] == b {
        Some(0)
    } else {
        match first_index(s.drop_first(), b) {
            Some(i) => Some(i + 1),
            None => None,
        }
    }
}

/// Where `b` last occurs in `s`.
pub open spec fn last_index(s: Seq<u8>, b: u8) -> Option<int>
    decreases s.len(),
{
    if s.len() == 0 {
        None
    } else if s.last() == b {
        Some(s.len() - 1)
    } else {
        last_index(s.drop_last(), b)
    }
}

pub(crate) proof fn lemma_first_index_bound(s: Seq<u8>, b: u8)
    ensures
        first_index(s, b) matches Some(i) ==> 0 <= i < s.len() && s[i] == b,
    decreases s.len(),
{
    if s.len() > 0 {
        lemma_first_index_bound(s.drop_first(), b);
    }
}

proof fn lemma_last_index_bound(s: Seq<u8>, b: u8)
    ensures
        last_index(s, b) matches Some(i) ==> 0 <= i < s.len(),
    decreases s.len(),
{
    if s.len() > 0 {
        lemma_last_index_bound(s.drop_last(), b);
    }
}

pub(crate) fn find_first(s: &[u8], b: u8) -> (r: Option<usize>)
    ensures
        match r {
            Some(i) => first_index(s@, b) == Some(i as int),
            None => first_index(s@, b) is None,
        },
{
    let mut i: usize = 0;
    while i < s.len()
        invariant
            i <= s@.len(),
            forall|k: int| 0 <= k < i ==> #[trigger] s@[k] != b,
        decreases s@.len() - i,
    {
        if s[i] == b {
            proof {
                lemma_first_index_prefix(s@, b, i as int);
            }
            return Some(i);
        }
        i = i + 1;
    }
    proof {
        lemma_first_index_none(s@, b);
    }
    None
}

proof fn lemma_first_index_prefix(s: Seq<u8>, b: u8, i: int)
    requires
        0 <= i < s.len(),
        s[i] == b,
        forall|k: int| 0 <= k < i ==> #[trigger] s[k] != b,
    ensures
        first_index(s, b) == Some(i),
    decreases i,
{
    if i > 0 {
        assert forall|k: int| 0 <= k < i - 1 implies #[trigger] s.drop_first()[k] != b by {
            assert(s.drop_first()[k] == s[k + 1]);
        }
        lemma_first_index_prefix(s.drop_first(), b, i - 1);
    }
}

proof fn lemma_first_index_none(s: Seq<u8>, b: u8)
    requires
        forall|k: int| 0 <= k < s.len() ==> #[trigger] s[k] != b,
    ensures
        first_index(s, b) is None,
    decreases s.len(),
{
    if s.len() > 0 {
        assert forall|k: int| 0 <= k < s.len() - 1 implies #[trigger] s.drop_first()[k] != b by {
            assert(s.drop_first()[k] == s[k + 1]);
        }
        lemma_first_index_none(s.drop_first(), b);
    }
}

fn find_last(s: &[u8], b: u8) -> (r: Option<usize>)
    ensures
        match r {
            Some(i) => last_index(s@, b) == Some(i as int),
            None => last_index(s@, b) is None,
        },
{
    let mut i = s.len();
    assert(s@.take(i as int) =~= s@);
    while i > 0
        invariant
            i <= s@.len(),
            last_index(s@, b) == last_index(s@.take(i as int), b),
        decreases i,
    {
        assert(s@.take(i as int).drop_last() =~= s@.take(i - 1));
        if s[i - 1] == b {
            return Some(i - 1);
        }
        i = i - 1;
    }
    None
}

/// The user information of an authority: what stands before its last `@`.
pub open spec fn userinfo(authority: Seq<u8>) -> Seq<u8> {
    match last_index(authority, 64) {
        Some(i) => authority.take(i),
        None => Seq::empty(),
    }
}

/// A proxy URL with the credentials it carries.
pub struct ProxyConfig {
    scheme: Option<String>,
    authority: Option<String>,
    host: Option<String>,
    basic_auth: Option<Vec<u8>>,
    raw_auth: Option<(Vec<u8>, Vec<u8>)>,
}

pub struct ProxyConfigView {
    pub uri: (Option<Seq<char>>, Option<Seq<char>>, Option<Seq<char>>),
    pub basic_auth: Option<Seq<u8>>,
    pub raw_auth: Option<(Seq<u8>, Seq<u8>)>,
}

pub open spec fn bytes_opt(o: Option<Vec<u8>>) -> Option<Seq<u8>> {
    match o {
        Some(v) => Some(v@),
        None => None,
    }
}

pub open spec fn pair_opt(o: Option<(Vec<u8>, Vec<u8>)>) -> Option<(Seq<u8>, Seq<u8>)> {
    match o {
        Some(p) => Some((p.0@, p.1@)),
        None => None,
    }
}

impl View for ProxyConfig {
    type V = ProxyConfigView;

    closed spec fn view(&self) -> ProxyConfigView {
        ProxyConfigView {
            uri: (opt_chars(self.scheme), opt_chars(self.authority), opt_chars(self.host)),
            basic_auth: bytes_opt(self.basic_auth),
            raw_auth: pair_opt(self.raw_auth),
        }
    }
}

/// What a proxy URL gives: nothing unless it is a URI with an authority;
/// then a `Basic` header value when the authority has user information, and
/// the user and password when that information holds a `:`.
pub open spec fn parse_proxy(text: Seq<char>) -> Option<ProxyConfigView> {
    match uri_parts(text) {
        None => None,
        Some(p) => match p.1 {
            None => None,
            Some(auth) => {
                let info = userinfo(utf8(auth));
                Some(
                    ProxyConfigView {
                        uri: p,
                        basic_auth: if info.len() > 0 {
                            Some(ascii_of("Basic "@) + utf8(base64_text(info)))
                        } else {
                            None
                        },
                        raw_auth: match first_index(info, 58) {
                            Some(i) => Some((info.take(i), info.skip(i + 1))),
                            None => None,
                        },
                    },
                )
            },
        },
    }
}

impl ProxyConfig {
    /// Reads a proxy URL.
    pub fn parse(value: String) -> (r: Option<ProxyConfig>)
        ensures
            match r {
                Some(c) => parse_proxy(value@) == Some(c@),
                None => parse_proxy(value@) is None,
            },
    {
        proof {
            reveal_strlit("Basic ");
        }
        let parts = match parse_uri(value.as_str()) {
            Some(p) => p,
            None => return None,
        };
        let auth = match &parts.authority {
            Some(a) => string_bytes(a),
            None => return None,
        };
        let info: Vec<u8> = match find_last(auth.as_slice(), 64) {
            Some(i) => {
                proof {
                    lemma_last_index_bound(auth@, 64);
                }
                let s = &auth.as_slice()[0..i];
                assert(s@ =~= auth@.take(i as int));
                to_vec(s)
            },
            None => Vec::new(),
        };
        let basic_auth = if info.len() > 0 {
            let encoded = base64_encode(info.as_slice());
            let mut v = literal("Basic ");
            append_bytes(&mut v, string_bytes(&encoded).as_slice());
            Some(v)
        } else {
            None
        };
        let raw_auth = match find_first(info.as_slice(), 58) {
            Some(i) => {
                proof {
                    lemma_first_index_bound(info@, 58);
                }
                let user = &info.as_slice()[0..i];
                let pass = &info.as_slice()[i + 1..info.len()];
                assert(user@ =~= info@.take(i as int));
                assert(pass@ =~= info@.skip(i + 1));
                Some((to_vec(user), to_vec(pass)))
            },
            None => None,
        };
        let UriParts { scheme, authority, host } = parts;
        Some(ProxyConfig { scheme, authority, host, basic_auth, raw_auth })
    }

    fn duplicate(&self) -> (r: ProxyConfig)
        ensures
            r@ == self@,
    {
        ProxyConfig {
            scheme: clone_opt(&self.scheme),
            authority: clone_opt(&self.authority),
            host: clone_opt(&self.host),
            basic_auth: match &self.basic_auth {
                Some(v) => Some(to_vec(v.as_slice())),
                None => None,
            },
            raw_auth: match &self.raw_auth {
                Some(p) => Some((to_vec(p.0.as_slice()), to_vec(p.1.as_slice()))),
                None => None,
            },
        }
    }
}

fn clone_opt(o: &Option<String>) -> (r: Option<String>)
    ensures
        opt_chars(r) == opt_chars(*o),
{
    match o {
        Some(s) => Some(s.clone()),
        None => None,
    }
}

fn parse_opt(value: Option<String>) -> (r: Option<ProxyConfig>)
    ensures
        match value {
            Some(v) => match r {
                Some(c) => parse_proxy(v@) == Some(c@),
                None => parse_proxy(v@) is None,
            },
            None => r is None,
        },
{
    match value {
        Some(v) => ProxyConfig::parse(v),
        None => None,
    }
}

pub open spec fn config_opt(o: Option<ProxyConfig>) -> Option<ProxyConfigView> {
    match o {
        Some(c) => Some(c@),
        None => None,
    }
}

pub open spec fn parsed_opt(o: Option<String>) -> Option<ProxyConfigView> {
    match o {
        Some(v) => parse_proxy(v@),
        None => None,
    }
}

/// The proxy that a request goes through, with its credentials.
pub struct Intercept {
    config: ProxyConfig,
}

impl View for Intercept {
    type V = ProxyConfigView;

    closed spec fn view(&self) -> ProxyConfigView {
        self.config@
    }
}

impl Intercept {
    /// The proxy URI's scheme.
    pub fn scheme(&self) -> (r: Option<&String>)
        ensures
            match r {
                Some(s) => self@.uri.0 == Some(s@),
                None => self@.uri.0 is None,
            },
    {
        self.config.scheme.as_ref()
    }

    /// The proxy URI's authority.
    pub fn uri(&self) -> (r: Option<&String>)
        ensures
            match r {
                Some(s) => self@.uri.1 == Some(s@),
                None => self@.uri.1 is None,
            },
    {
        self.config.authority.as_ref()
    }

    /// The `Proxy-Authorization` value for HTTP proxies.
    pub fn basic_auth(&self) -> (r: Option<&Vec<u8>>)
        ensures
            match r {
                Some(v) => self@.basic_auth == Some(v@),
                None => self@.basic_auth is None,
            },
    {
        self.config.basic_auth.as_ref()
    }

    /// User and password for SOCKS proxies.
    pub fn raw_auth(&self) -> (r: Option<(&[u8], &[u8])>)
        ensures
            match r {
                Some(p) => self@.raw_auth == Some((p.0@, p.1@)),
                None => self@.raw_auth is None,
            },
    {
        match &self.config.raw_auth {
            Some(p) => Some((p.0.as_slice(), p.1.as_slice())),
            None => None,
        }
    }
}

/// Proxies by scheme and the hosts that bypass them.
pub struct Matcher {
    http: Option<ProxyConfig>,
    https: Option<ProxyConfig>,
    all: Option<ProxyConfig>,
    no_proxy: Vec<String>,
}

pub struct MatcherView {
    pub http: Option<ProxyConfigView>,
    pub https: Option<ProxyConfigView>,
    pub all: Option<ProxyConfigView>,
    pub no_proxy: Seq<Seq<char>>,
}

impl View for Matcher {
    type V = MatcherView;

    closed spec fn view(&self) -> MatcherView {
        MatcherView {
            http: config_opt(self.http),
            https: config_opt(self.https),
            all: config_opt(self.all),
            no_proxy: strings_view(self.no_proxy@),
        }
    }
}

/// Whether a lowercase host is excluded by some `NO_PROXY` entry (a suffix match).
pub open spec fn bypassed(no_proxy: Seq<Seq<char>>, host: Seq<char>) -> bool {
    exists|i: int|
        0 <= i < no_proxy.len() && {
            let e = utf8(#[trigger] no_proxy[i]);
            let h = utf8(host);
            e.len() <= h.len() && h.skip(h.len() - e.len()) == e
        }
}

/// The proxy for a request URI: none where it is not a URI or has no host,
/// where its host is excluded, or where its scheme (`http` when missing) is
/// neither `http` nor `https`; else the scheme's own proxy, falling back to
/// the one for all schemes.
pub open spec fn intercept_of(m: MatcherView, uri: Seq<char>) -> Option<ProxyConfigView> {
    match uri_parts(uri) {
        None => None,
        Some(p) => match p.2 {
            None => None,
            Some(host) => if bypassed(m.no_proxy, lower_of(host)) {
                None
            } else {
                let scheme = match p.0 {
                    Some(s) => s,
                    None => "http"@,
                };
                if scheme == "http"@ {
                    if m.http is Some {
                        m.http
                    } else {
                        m.all
                    }
                } else if scheme == "https"@ {
                    if m.https is Some {
                        m.https
                    } else {
                        m.all
                    }
                } else {
                    None
                }
            },
        },
    }
}

fn pick(first: &Option<ProxyConfig>, fallback: &Option<ProxyConfig>) -> (r: Option<Intercept>)
    ensures
        match r {
            Some(i) => Some(i@) == if first is Some {
                config_opt(*first)
            } else {
                config_opt(*fallback)
            },
            None => first is None && fallback is None,
        },
{
    match first {
        Some(c) => Some(Intercept { config: c.duplicate() }),
        None => match fallback {
            Some(c) => Some(Intercept { config: c.duplicate() }),
            None => None,
        },
    }
}

impl Matcher {
    /// The proxy for a request URI.
    pub fn intercept(&self, uri: &str) -> (r: Option<Intercept>)
        ensures
            match r {
                Some(i) => intercept_of(self@, uri@) == Some(i@),
                None => intercept_of(self@, uri@) is None,
            },
    {
        proof {
            reveal_strlit("http");
            reveal_strlit("https");
        }
        let parts = match parse_uri(uri) {
            Some(p) => p,
            None => return None,
        };
        let host = match &parts.host {
            Some(h) => lowercase(h.as_str()),
            None => return None,
        };
        let hb = string_bytes(&host);
        let mut i: usize = 0;
        while i < self.no_proxy.len()
            invariant
                i <= self.no_proxy@.len(),
                hb@ == utf8(host@),
                uri_parts(uri@) == Some(parts_view(parts)),
                parts.host matches Some(h) && host@ == lower_of(h@),
                forall|k: int|
                    0 <= k < i ==> {
                        let e = utf8(#[trigger] strings_view(self.no_proxy@)[k]);
                        !(e.len() <= hb@.len() && hb@.skip(hb@.len() - e.len()) == e)
                    },
            decreases self.no_proxy@.len() - i,
        {
            let e = string_bytes(&self.no_proxy[i]);
            if ends_with(hb.as_slice(), e.as_slice()) {
                assert(strings_view(self.no_proxy@)[i as int] == self.no_proxy@[i as int]@);
                assert(e@ == utf8(strings_view(self.no_proxy@)[i as int]));
                assert(bypassed(self@.no_proxy, host@));
                return None;
            }
            i = i + 1;
        }
        let scheme: &str = match &parts.scheme {
            Some(s) => s.as_str(),
            None => "http",
        };
        let http_s = "http".to_owned();
        let https_s = "https".to_owned();
        let scheme_s = scheme.to_owned();
        if scheme_s == http_s {
            pick(&self.http, &self.all)
        } else if scheme_s == https_s {
            pick(&self.https, &self.all)
        } else {
            None
        }
    }
}

/// Proxy configuration shared by the clients that use it.
pub struct Proxy {
    matcher: Matcher,
}

impl View for Proxy {
    type V = MatcherView;

    closed spec fn view(&self) -> MatcherView {
        self.matcher@
    }
}

/// Builds a [`Proxy`] from explicit settings.
pub struct ProxyBuilder {
    http: Option<String>,
    https: Option<String>,
    all: Option<String>,
    no_proxy: Vec<String>,
}

pub struct ProxyBuilderView {
    pub http: Option<Seq<char>>,
    pub https: Option<Seq<char>>,
    pub all: Option<Seq<char>>,
    pub no_proxy: Seq<Seq<char>>,
}

impl View for ProxyBuilder {
    type V = ProxyBuilderView;

    closed spec fn view(&self) -> ProxyBuilderView {
        ProxyBuilderView {
            http: opt_chars(self.http),
            https: opt_chars(self.https),
            all: opt_chars(self.all),
            no_proxy: strings_view(self.no_proxy@),
        }
    }
}

pub open spec fn matcher_of(
    http: Option<Seq<char>>,
    https: Option<Seq<char>>,
    all: Option<Seq<char>>,
    no_proxy: Seq<Seq<char>>,
) -> MatcherView {
    MatcherView {
        http: match http {
            Some(v) => parse_proxy(v),
            None => None,
        },
        https: match https {
            Some(v) => parse_proxy(v),
            None => None,
        },
        all: match all {
            Some(v) => parse_proxy(v),
            None => None,
        },
        no_proxy,
    }
}

impl Proxy {
    /// A proxy configuration from the values of `HTTP_PROXY`, `HTTPS_PROXY`,
    /// `ALL_PROXY` and `NO_PROXY`, where set.
    pub fn from_env(
        http_proxy: Option<String>,
        https_proxy: Option<String>,
        all_proxy: Option<String>,
        no_proxy: Option<String>,
    ) -> (r: Proxy)
        ensures
            r@ == matcher_of(
                opt_chars(http_proxy),
                opt_chars(https_proxy),
                opt_chars(all_proxy),
                match no_proxy {
                    Some(v) => no_proxy_entries(comma_pieces(v@)),
                    None => Seq::empty(),
                },
            ),
    {
        let mut entries: Vec<String> = Vec::new();
        if let Some(list) = &no_proxy {
            parse_no_proxy(list.as_str(), &mut entries);
        }
        proof {
            if no_proxy is None {
                assert(strings_view(entries@) =~= Seq::<Seq<char>>::empty());
            } else {
                assert(strings_view(entries@) =~= no_proxy_entries(comma_pieces(no_proxy.unwrap()@)));
            }
        }
        Proxy::new(
            Matcher {
                http: parse_opt(http_proxy),
                https: parse_opt(https_proxy),
                all: parse_opt(all_proxy),
                no_proxy: entries,
            },
        )
    }

    /// The platform's proxy settings; these are the environment's.
    pub fn from_system(
        http_proxy: Option<String>,
        https_proxy: Option<String>,
        all_proxy: Option<String>,
        no_proxy: Option<String>,
    ) -> (r: Proxy)
        ensures
            r@ == matcher_of(
                opt_chars(http_proxy),
                opt_chars(https_proxy),
                opt_chars(all_proxy),
                match no_proxy {
                    Some(v) => no_proxy_entries(comma_pieces(v@)),
                    None => Seq::empty(),
                },
            ),
    {
        Proxy::from_env(http_proxy, https_proxy, all_proxy, no_proxy)
    }

    /// An empty builder.
    pub fn builder() -> (r: ProxyBuilder)
        ensures
            r@ == (ProxyBuilderView { http: None, https: None, all: None, no_proxy: Seq::empty() }),
    {
        let r = ProxyBuilder { http: None, https: None, all: None, no_proxy: Vec::new() };
        assert(r@.no_proxy =~= Seq::<Seq<char>>::empty());
        r
    }

    fn new(matcher: Matcher) -> (r: Proxy)
        ensures
            r@ == matcher@,
    {
        Proxy { matcher }
    }

    /// The matcher behind this configuration.
    pub fn into_matcher(self) -> (r: Matcher)
        ensures
            r@ == self@,
    {
        self.matcher
    }

    /// The proxy for a request URI.
    pub fn intercept(&self, uri: &str) -> (r: Option<Intercept>)
        ensures
            match r {
                Some(i) => intercept_of(self@, uri@) == Some(i@),
                None => intercept_of(self@, uri@) is None,
            },
    {
        self.matcher.intercept(uri)
    }
}

impl ProxyBuilder {
    /// The proxy for both schemes.
    pub fn all(self, value: String) -> (r: ProxyBuilder)
        ensures
            r@ == (ProxyBuilderView { all: Some(value@), ..self@ }),
    {
        ProxyBuilder { all: Some(value), ..self }
    }

    /// The proxy for `http` URIs.
    pub fn http(self, value: String) -> (r: ProxyBuilder)
        ensures
            r@ == (ProxyBuilderView { http: Some(value@), ..self@ }),
    {
        ProxyBuilder { http: Some(value), ..self }
    }

    /// The proxy for `https` URIs.
    pub fn https(self, value: String) -> (r: ProxyBuilder)
        ensures
            r@ == (ProxyBuilderView { https: Some(value@), ..self@ }),
    {
        ProxyBuilder { https: Some(value), ..self }
    }

    /// Adds the entries of a comma-separated `NO_PROXY` list.
    pub fn no_proxy(self, value: String) -> (r: ProxyBuilder)
        ensures
            r@ == (ProxyBuilderView {
                no_proxy: self@.no_proxy + no_proxy_entries(comma_pieces(value@)),
                ..self@
            }),
    {
        let mut b = self;
        parse_no_proxy(value.as_str(), &mut b.no_proxy);
        b
    }

    /// The configuration.
    pub fn build(self) -> (r: Proxy)
        ensures
            r@ == matcher_of(self@.http, self@.https, self@.all, self@.no_proxy),
    {
        let ProxyBuilder { http, https, all, no_proxy } = self;
        Proxy::new(
            Matcher {
                http: parse_opt(http),
                https: parse_opt(https),
                all: parse_opt(all),
                no_proxy,
            },
        )
    }
}

} // verus!
