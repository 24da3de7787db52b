//! Redirect following as a step function: the caller sends the request that
//! the state builds, hands each response back, and stops when told.
use vstd::prelude::*;
use crate::bytes::{all_visible, ascii_of, is_all_visible, literal, to_vec};
use crate::headers::{first_value, has_name, without, HeaderSeq, Headers};
use crate::message::{is_bodyless, Method, Request, RequestView, Response, ResponseView};
use crate::uri::{
    as_url_view, ascii_string, chars_of, join_url, parse_uri, parse_url, uri_parts, url_join,
    url_parse, ParsedUrl, UrlView,
};

verus! {

broadcast use vstd::string::group_string_axioms;

/// The number of redirects followed unless configured otherwise.
pub const DEFAULT_MAX_REDIRECTS: u32 = 10;

/// Why following redirects stopped without a final response.
#[derive(Clone, Copy, Debug, PartialEq, Eq, Structural)]
pub enum FollowRedirectError {
    /// The request URI is not an absolute URL.
    InvalidUrl,
    /// More redirects than allowed.
    TooManyRedirects,
    /// A redirect without a `Location` header.
    MissingLocationHeader,
    /// A `Location` that is not visible ASCII or does not resolve to a URL.
    InvalidLocationHeader,
    /// A redirect target that a request cannot carry as its URI.
    InvalidRedirectUri,
}

impl FollowRedirectError {
    /// The HTTP status that stands for this error at an API boundary: 400 for
    /// a bad `Location`, 500 otherwise.
    pub fn status(&self) -> (r: u16)
        ensures
            r == match self {
                FollowRedirectError::InvalidLocationHeader | FollowRedirectError::MissingLocationHeader => 400u16,
                _ => 500u16,
            },
    {
        match self {
            FollowRedirectError::InvalidLocationHeader | FollowRedirectError::MissingLocationHeader => 400,
            _ => 500,
        }
    }
}

pub open spec fn is_redirection(status: u16) -> bool {
    300 <= status < 400
}

/// The method of the next hop: `303` always turns into `GET`; `301` and
/// `302` turn everything but `GET` and `HEAD` into `GET`; other codes keep it.
pub open spec fn next_method(status: u16, m: Method) -> Method {
    if status == 303 {
        Method::Get
    } else if (status == 301 || status == 302) && !is_bodyless(m) {
        Method::Get
    } else {
        m
    }
}

/// The headers of a hop: the original ones without `Host` and
/// `Content-Length`, without `Content-Type` when the body is dropped, and
/// without `Authorization` and `Cookie` once credentials are stripped.
pub open spec fn hop_headers(initial: HeaderSeq, m: Method, stripped: bool) -> HeaderSeq {
    let h1 = without(without(initial, ascii_of("host"@)), ascii_of("content-length"@));
    let h2 = if is_bodyless(m) {
        without(h1, ascii_of("content-type"@))
    } else {
        h1
    };
    if stripped {
        without(without(h2, ascii_of("authorization"@)), ascii_of("cookie"@))
    } else {
        h2
    }
}

/// A `Location` value resolved against the current URL: as an absolute URL
/// where it is one, else joined to the current URL.
pub open spec fn resolve(current: Seq<char>, location: Seq<u8>) -> Option<UrlView> {
    match url_parse(chars_of(location)) {
        Some(u) => as_url_view(Some(u)),
        None => as_url_view(url_join(current, chars_of(location))),
    }
}

/// The state of one run of redirect following, as plain values.
pub struct RedirectView {
    pub method: Method,
    pub href: Seq<char>,
    pub host: Option<Seq<char>>,
    pub origin_host: Option<Seq<char>>,
    pub initial: HeaderSeq,
    pub headers: HeaderSeq,
    pub body: Seq<u8>,
    pub count: u32,
    pub max: u32,
    pub stripped: bool,
}

/// The state after following a redirect with `status` to `target`.
pub open spec fn follow(s: RedirectView, status: u16, target: UrlView) -> RedirectView {
    let m = next_method(status, s.method);
    let stripped = s.stripped || s.host != target.host;
    RedirectView {
        method: m,
        href: target.href,
        host: target.host,
        headers: hop_headers(s.initial, m, stripped),
        count: (s.count + 1) as u32,
        stripped,
        ..s
    }
}

/// The request that a state sends.
pub open spec fn request_of(s: RedirectView) -> RequestView {
    RequestView {
        method: s.method,
        uri: s.href,
        headers: s.headers,
        body: if is_bodyless(s.method) {
            Seq::<u8>::empty()
        } else {
            s.body
        },
    }
}

/// What a response does to the run.
pub enum RedirectOutcome {
    /// Not a redirect: it is the final response.
    Done,
    Failed(FollowRedirectError),
    Follow(UrlView),
}

pub open spec fn outcome(s: RedirectView, resp: ResponseView) -> RedirectOutcome {
    if !is_redirection(resp.status) {
        RedirectOutcome::Done
    } else if s.count >= s.max {
        RedirectOutcome::Failed(FollowRedirectError::TooManyRedirects)
    } else {
        match first_value(resp.headers, ascii_of("location"@)) {
            None => RedirectOutcome::Failed(FollowRedirectError::MissingLocationHeader),
            Some(v) => if !all_visible(v) {
                RedirectOutcome::Failed(FollowRedirectError::InvalidLocationHeader)
            } else {
                match resolve(s.href, v) {
                    None => RedirectOutcome::Failed(FollowRedirectError::InvalidLocationHeader),
                    Some(u) => RedirectOutcome::Follow(u),
                }
            },
        }
    }
}

/// What the caller does next.
#[derive(Clone, Copy, Debug, PartialEq, Eq, Structural)]
pub enum RedirectStep {
    /// Return the response that was handed in.
    Done,
    /// Send [`RedirectState::request`] again.
    Follow,
    /// Stop with this error.
    Failed(FollowRedirectError),
}

/// Redirect following configuration.
#[derive(Clone, Copy, Debug)]
pub struct FollowRedirect {
    max_redirects: u32,
}

/// The state of one run of redirect following.
pub struct RedirectState {
    method: Method,
    url: ParsedUrl,
    origin_host: Ghost<Option<Seq<char>>>,
    initial: Headers,
    headers: Headers,
    body: Vec<u8>,
    count: u32,
    max: u32,
    stripped: bool,
}

impl View for RedirectState {
    type V = RedirectView;

    closed spec fn view(&self) -> RedirectView {
        RedirectView {
            method: self.method,
            href: self.url@.href,
            host: self.url@.host,
            origin_host: self.origin_host@,
            initial: self.initial@,
            headers: self.headers@,
            body: self.body@,
            count: self.count,
            max: self.max,
            stripped: self.stripped,
        }
    }
}

/// Every hop whose host differs from the original host has its credentials stripped.
pub open spec fn redirect_wf(s: RedirectView) -> bool {
    &&& s.host != s.origin_host ==> s.stripped
    &&& s.stripped ==> !has_name(s.headers, ascii_of("authorization"@)) && !has_name(
        s.headers,
        ascii_of("cookie"@),
    )
}

/// Once credentials are stripped, neither `Authorization` nor `Cookie` is
/// among a hop's headers.
pub proof fn lemma_stripped_headers(initial: HeaderSeq, m: Method)
    ensures
        !has_name(hop_headers(initial, m, true), ascii_of("authorization"@)),
        !has_name(hop_headers(initial, m, true), ascii_of("cookie"@)),
{
    let h1 = without(without(initial, ascii_of("host"@)), ascii_of("content-length"@));
    let h2 = if is_bodyless(m) {
        without(h1, ascii_of("content-type"@))
    } else {
        h1
    };
    let h3 = without(h2, ascii_of("authorization"@));
    crate::headers::lemma_first_value_without(h2, ascii_of("authorization"@), ascii_of("authorization"@));
    reveal_strlit("cookie");
    reveal_strlit("authorization");
    crate::bytes::lemma_lengths_differ(ascii_of("cookie"@), ascii_of("authorization"@));
    crate::headers::lemma_first_value_without(h3, ascii_of("cookie"@), ascii_of("authorization"@));
    crate::headers::lemma_first_value_without(h3, ascii_of("cookie"@), ascii_of("cookie"@));
}

/// Following a redirect keeps the run well formed: a host change strips
/// credentials, and stripping is never undone.
pub proof fn lemma_follow_wf(s: RedirectView, status: u16, target: UrlView)
    requires
        redirect_wf(s),
    ensures
        redirect_wf(follow(s, status, target)),
        s.stripped ==> follow(s, status, target).stripped,
        s.host != target.host ==> follow(s, status, target).stripped,
{
    let s2 = follow(s, status, target);
    if s2.stripped {
        lemma_stripped_headers(s.initial, s2.method);
    }
}

impl FollowRedirect {
    /// Follows at most ten redirects.
    pub fn new() -> (r: FollowRedirect)
        ensures
            r.max_redirects() == DEFAULT_MAX_REDIRECTS,
    {
        FollowRedirect { max_redirects: DEFAULT_MAX_REDIRECTS }
    }

    /// Follows at most `max` redirects.
    pub fn with_max_redirects(max: u32) -> (r: FollowRedirect)
        ensures
            r.max_redirects() == max,
    {
        FollowRedirect { max_redirects: max }
    }

    pub closed spec fn max_redirects(&self) -> u32 {
        self.max_redirects
    }

    /// Takes the snapshot of a request that every hop is rebuilt from.
    pub fn start(&self, request: Request) -> (r: Result<RedirectState, FollowRedirectError>)
        ensures
            match url_parse(request.uri@) {
                None => r == Err::<RedirectState, FollowRedirectError>(FollowRedirectError::InvalidUrl),
                Some(u) => r matches Ok(s) && s@ == (RedirectView {
                    method: request.method,
                    href: u.0,
                    host: u.1,
                    origin_host: u.1,
                    initial: request.headers@,
                    headers: request.headers@,
                    body: request.body@,
                    count: 0,
                    max: self.max_redirects(),
                    stripped: false,
                }) && redirect_wf(s@),
            },
    {
        let url = match parse_url(request.uri.as_str()) {
            Some(u) => u,
            None => return Err(FollowRedirectError::InvalidUrl),
        };
        let ghost origin = url@.host;
        let headers = request.headers.duplicate();
        Ok(
            RedirectState {
                method: request.method,
                url,
                origin_host: Ghost(origin),
                initial: request.headers,
                headers,
                body: request.body,
                count: 0,
                max: self.max_redirects,
                stripped: false,
            },
        )
    }
}

impl RedirectState {
    /// The request of the current hop, rebuilt from the snapshot: no body for
    /// `GET` and `HEAD`, the original bytes otherwise.
    pub fn request(&self) -> (r: Result<Request, FollowRedirectError>)
        ensures
            uri_parts(self@.href) is Some ==> (r matches Ok(q) && q@ == request_of(self@)),
            uri_parts(self@.href) is None ==> r == Err::<Request, FollowRedirectError>(
                FollowRedirectError::InvalidRedirectUri,
            ),
    {
        if parse_uri(self.url.href.as_str()).is_none() {
            return Err(FollowRedirectError::InvalidRedirectUri);
        }
        let body = if self.method == Method::Get || self.method == Method::Head {
            Vec::new()
        } else {
            to_vec(self.body.as_slice())
        };
        let r = Request {
            method: self.method,
            uri: self.url.href.clone(),
            headers: self.headers.duplicate(),
            body,
        };
        assert(r@.body =~= request_of(self@).body);
        Ok(r)
    }

    /// Reads a response: reports it final, a failure, or moves to the redirect target.
    pub fn on_response(&mut self, response: &Response) -> (r: RedirectStep)
        ensures
            redirect_wf(old(self)@) ==> redirect_wf(final(self)@),
            match outcome(old(self)@, response@) {
                RedirectOutcome::Done => r == RedirectStep::Done && final(self)@ == old(self)@,
                RedirectOutcome::Failed(e) => r == RedirectStep::Failed(e) && final(self)@ == old(
                    self,
                )@,
                RedirectOutcome::Follow(u) => r == RedirectStep::Follow && final(self)@ == follow(
                    old(self)@,
                    response.status,
                    u,
                ),
            },
    {
        proof {
            reveal_strlit("location");
            reveal_strlit("host");
            reveal_strlit("content-length");
            reveal_strlit("content-type");
            reveal_strlit("authorization");
            reveal_strlit("cookie");
        }
        if !(300 <= response.status && response.status < 400) {
            return RedirectStep::Done;
        }
        if self.count >= self.max {
            return RedirectStep::Failed(FollowRedirectError::TooManyRedirects);
        }
        let location = match response.headers.get(literal("location").as_slice()) {
            Some(v) => v,
            None => return RedirectStep::Failed(FollowRedirectError::MissingLocationHeader),
        };
        if !is_all_visible(location) {
            return RedirectStep::Failed(FollowRedirectError::InvalidLocationHeader);
        }
        let text = ascii_string(location);
        let target = match parse_url(text.as_str()) {
            Some(u) => u,
            None => match join_url(self.url.href.as_str(), text.as_str()) {
                Some(u) => u,
                None => return RedirectStep::Failed(FollowRedirectError::InvalidLocationHeader),
            },
        };
        let status = response.status;
        let m = if status == 303 {
            Method::Get
        } else if (status == 301 || status == 302) && !(self.method == Method::Get || self.method
            == Method::Head) {
            Method::Get
        } else {
            self.method
        };
        let host_changed = match (&self.url.host, &target.host) {
            (Some(a), Some(b)) => *a != *b,
            (None, None) => false,
            _ => true,
        };
        let stripped = self.stripped || host_changed;
        let mut headers = self.initial.duplicate();
        headers.remove(literal("host").as_slice());
        headers.remove(literal("content-length").as_slice());
        if m == Method::Get || m == Method::Head {
            headers.remove(literal("content-type").as_slice());
        }
        if stripped {
            headers.remove(literal("authorization").as_slice());
            headers.remove(literal("cookie").as_slice());
        }
        proof {
            if redirect_wf(old(self)@) {
                lemma_follow_wf(old(self)@, status, target@);
            }
        }
        self.method = m;
        self.url = target;
        self.headers = headers;
        self.count = self.count + 1;
        self.stripped = stripped;
        RedirectStep::Follow
    }

    /// The number of redirects followed so far.
    pub fn redirects(&self) -> (r: u32)
        ensures
            r == self@.count,
    {
        self.count
    }
}

/// Every hop drops `Host` and `Content-Length`, and a hop without a body
/// drops `Content-Type` too.
pub proof fn lemma_hop_drops_framing(initial: HeaderSeq, m: Method, stripped: bool)
    ensures
        !has_name(hop_headers(initial, m, stripped), ascii_of("host"@)),
        !has_name(hop_headers(initial, m, stripped), ascii_of("content-length"@)),
        is_bodyless(m) ==> !has_name(hop_headers(initial, m, stripped), ascii_of("content-type"@)),
{
    reveal_strlit("host");
    reveal_strlit("content-length");
    reveal_strlit("content-type");
    reveal_strlit("authorization");
    reveal_strlit("cookie");
    let host = ascii_of("host"@);
    let cl = ascii_of("content-length"@);
    let ct = ascii_of("content-type"@);
    let auth = ascii_of("authorization"@);
    let cookie = ascii_of("cookie"@);
    let names = seq![host, cl, ct];
    let h0 = without(initial, host);
    let h1 = without(h0, cl);
    let h2 = if is_bodyless(m) {
        without(h1, ct)
    } else {
        h1
    };
    let h3 = without(h2, auth);
    assert forall|k: int| 0 <= k < 3 implies {
        let n = #[trigger] names[k];
        &&& !crate::bytes::same_name(auth, n)
        &&& !crate::bytes::same_name(cookie, n)
        &&& (n != host ==> !crate::bytes::same_name(host, n))
        &&& (n != cl ==> !crate::bytes::same_name(cl, n))
        &&& (n != ct ==> !crate::bytes::same_name(ct, n))
    } by {
        crate::bytes::lemma_lengths_differ(auth, names[k]);
        crate::bytes::lemma_lengths_differ(cookie, names[k]);
        if names[k] != host {
            crate::bytes::lemma_lengths_differ(host, names[k]);
        }
        if names[k] != cl {
            crate::bytes::lemma_lengths_differ(cl, names[k]);
        }
        if names[k] != ct {
            crate::bytes::lemma_lengths_differ(ct, names[k]);
        }
    }
    assert forall|k: int| 0 <= k < 3 && (k < 2 || is_bodyless(m)) implies first_value(
        hop_headers(initial, m, stripped),
        #[trigger] names[k],
    ) is None by {
        let n = names[k];
        crate::headers::lemma_first_value_without(initial, host, n);
        crate::headers::lemma_first_value_without(h0, cl, n);
        crate::headers::lemma_first_value_without(h1, ct, n);
        crate::headers::lemma_first_value_without(h2, auth, n);
        crate::headers::lemma_first_value_without(h3, cookie, n);
    }
    assert(names[0] == host && names[1] == cl && names[2] == ct);
}

/// A `302` turns a `POST` into a `GET` whose request has no body and no
/// `Content-Length`, `Content-Type` or `Host`; a `307` keeps the `POST` and
/// sends the original body again.
pub proof fn lemma_redirect_method_rules(s: RedirectView, target: UrlView)
    requires
        s.method == Method::Post,
    ensures
        follow(s, 302, target).method == Method::Get,
        request_of(follow(s, 302, target)).body.len() == 0,
        !has_name(request_of(follow(s, 302, target)).headers, ascii_of("content-length"@)),
        !has_name(request_of(follow(s, 302, target)).headers, ascii_of("content-type"@)),
        !has_name(request_of(follow(s, 302, target)).headers, ascii_of("host"@)),
        follow(s, 307, target).method == Method::Post,
        request_of(follow(s, 307, target)).body == s.body,
{
    let f = follow(s, 302, target);
    lemma_hop_drops_framing(s.initial, f.method, f.stripped);
}

/// `Authorization` is absent from every hop whose host differs from the
/// original host, and stays absent after the first such hop even when a
/// later hop returns to the original host.
pub proof fn lemma_credentials_stay_stripped(s: RedirectView, status: u16, target: UrlView)
    requires
        redirect_wf(s),
    ensures
        target.host != s.origin_host ==> !has_name(
            request_of(follow(s, status, target)).headers,
            ascii_of("authorization"@),
        ),
        s.stripped ==> !has_name(
            request_of(follow(s, status, target)).headers,
            ascii_of("authorization"@),
        ) && follow(s, status, target).stripped,
{
    lemma_follow_wf(s, status, target);
}

/// The state after following each redirect of `hops` in turn, each given as
/// the redirect's status and resolved target.
pub open spec fn follow_hops(s: RedirectView, hops: Seq<(u16, UrlView)>) -> RedirectView
    decreases hops.len(),
{
    if hops.len() == 0 {
        s
    } else {
        let p = follow_hops(s, hops.drop_last());
        follow(p, hops.last().0, hops.last().1)
    }
}

/// Some hop among the first `i` went to a host other than `origin`.
pub open spec fn left_origin(hops: Seq<(u16, UrlView)>, origin: Option<Seq<char>>, i: int) -> bool {
    exists|j: int| 0 <= j < i && (#[trigger] hops[j]).1.host != origin
}

proof fn lemma_hops_prefix(s: RedirectView, hops: Seq<(u16, UrlView)>, i: int)
    requires
        redirect_wf(s),
        !s.stripped,
        s.host == s.origin_host,
        0 <= i <= hops.len(),
    ensures
        ({
            let si = follow_hops(s, hops.take(i));
            &&& redirect_wf(si)
            &&& si.origin_host == s.origin_host
            &&& si.initial == s.initial
            &&& si.stripped == left_origin(hops, s.origin_host, i)
            &&& !si.stripped ==> si.host == s.origin_host
            &&& i > 0 ==> si.headers == hop_headers(s.initial, si.method, si.stripped)
        }),
    decreases i,
{
    if i == 0 {
        assert(hops.take(0) =~= Seq::<(u16, UrlView)>::empty());
    } else {
        lemma_hops_prefix(s, hops, i - 1);
        assert(hops.take(i).drop_last() =~= hops.take(i - 1));
        assert(hops.take(i).last() == hops[i - 1]);
        let p = follow_hops(s, hops.take(i - 1));
        lemma_follow_wf(p, hops[i - 1].0, hops[i - 1].1);
        if left_origin(hops, s.origin_host, i - 1) {
            let j = choose|j: int| 0 <= j < i - 1 && (#[trigger] hops[j]).1.host != s.origin_host;
            assert(0 <= j < i && hops[j].1.host != s.origin_host);
        }
        if hops[i - 1].1.host != s.origin_host {
            assert(left_origin(hops, s.origin_host, i));
        }
        if left_origin(hops, s.origin_host, i) && !left_origin(hops, s.origin_host, i - 1) {
            let j = choose|j: int| 0 <= j < i && (#[trigger] hops[j]).1.host != s.origin_host;
            assert(j == i - 1);
        }
    }
}

proof fn lemma_plain_hop_keeps_authorization(initial: HeaderSeq, m: Method)
    ensures
        first_value(hop_headers(initial, m, false), ascii_of("authorization"@)) == first_value(
            initial,
            ascii_of("authorization"@),
        ),
{
    reveal_strlit("host");
    reveal_strlit("content-length");
    reveal_strlit("content-type");
    reveal_strlit("authorization");
    let auth = ascii_of("authorization"@);
    crate::bytes::lemma_lengths_differ(ascii_of("host"@), auth);
    crate::bytes::lemma_lengths_differ(ascii_of("content-length"@), auth);
    crate::bytes::lemma_lengths_differ(ascii_of("content-type"@), auth);
    let h0 = without(initial, ascii_of("host"@));
    let h1 = without(h0, ascii_of("content-length"@));
    crate::headers::lemma_first_value_without(initial, ascii_of("host"@), auth);
    crate::headers::lemma_first_value_without(h0, ascii_of("content-length"@), auth);
    crate::headers::lemma_first_value_without(h1, ascii_of("content-type"@), auth);
}

/// Over a whole run of redirects from a fresh start: every hop before the
/// first one that leaves the original host sends the original
/// `Authorization`; from that hop on, no hop sends `Authorization` or
/// `Cookie`, even one that returns to the original host.
pub proof fn lemma_credentials_over_hops(s: RedirectView, hops: Seq<(u16, UrlView)>)
    requires
        redirect_wf(s),
        !s.stripped,
        s.host == s.origin_host,
        s.headers == s.initial,
    ensures
        forall|i: int|
            0 <= i <= hops.len() ==> {
                let q = request_of(#[trigger] follow_hops(s, hops.take(i)));
                &&& left_origin(hops, s.origin_host, i) ==> !has_name(q.headers, ascii_of("authorization"@))
                    && !has_name(q.headers, ascii_of("cookie"@))
                &&& !left_origin(hops, s.origin_host, i) ==> first_value(
                    q.headers,
                    ascii_of("authorization"@),
                ) == first_value(s.initial, ascii_of("authorization"@))
            },
{
    assert forall|i: int| 0 <= i <= hops.len() implies {
        let q = request_of(#[trigger] follow_hops(s, hops.take(i)));
        &&& left_origin(hops, s.origin_host, i) ==> !has_name(q.headers, ascii_of("authorization"@))
            && !has_name(q.headers, ascii_of("cookie"@))
        &&& !left_origin(hops, s.origin_host, i) ==> first_value(
            q.headers,
            ascii_of("authorization"@),
        ) == first_value(s.initial, ascii_of("authorization"@))
    } by {
        lemma_hops_prefix(s, hops, i);
        let si = follow_hops(s, hops.take(i));
        if i > 0 {
            lemma_plain_hop_keeps_authorization(s.initial, si.method);
        } else {
            assert(hops.take(0) =~= Seq::<(u16, UrlView)>::empty());
        }
    }
}

} // verus!
