//! An in-memory HTTP cache: fresh entries are served without a network call,
//! stale ones are revalidated with their validators, and responses are stored
//! as `Cache-Control` and `Expires` allow.
use vstd::prelude::*;
use crate::bytes::{all_visible, ascii_of, decimal, is_all_visible, literal, push_decimal, to_vec};
use crate::cache_control::{cache_control_of, CacheControl};
use crate::headers::{first_value, has_name, with_header, HeaderSeq, Headers};
use crate::message::{Method, Request, RequestView, Response, ResponseView};

verus! {

broadcast use vstd::string::group_string_axioms;

/// The instant that an HTTP date names, in whole seconds since the Unix
/// epoch, or `None` where the text is not an HTTP date.
pub uninterp spec fn http_date_secs(text: Seq<u8>) -> Option<u64>;

/// Relies on `httpdate::parse_http_date`, which reads the three date formats of
/// HTTP and yields an instant at a whole second after the Unix epoch.
#[verifier::external_body]
fn parse_http_date(text: &[u8]) -> (r: Option<u64>)
    requires
        all_visible(text@),
    ensures
        r == http_date_secs(text@),
{
    let text = match std::str::from_utf8(text) {
        Ok(t) => t,
        Err(_) => return None,
    };
    match httpdate::parse_http_date(text) {
        Ok(t) => t.duration_since(std::time::UNIX_EPOCH).ok().map(|d| d.as_secs()),
        Err(_) => None,
    }
}

/// How long, in milliseconds, the `Expires` header of `hs` leaves a response
/// fresh when the wall clock reads `unix_now_ms`; `None` for a missing,
/// unreadable or past date.
pub open spec fn expires_in(hs: HeaderSeq, unix_now_ms: u64) -> Option<u128> {
    match first_value(hs, ascii_of("expires"@)) {
        Some(v) => if all_visible(v) {
            match http_date_secs(v) {
                Some(t) => if t * 1000 > unix_now_ms {
                    Some((t * 1000 - unix_now_ms) as u128)
                } else {
                    None
                },
                None => None,
            }
        } else {
            None
        },
        None => None,
    }
}

/// A stored response as plain values.
pub struct EntryView {
    pub status: u16,
    pub headers: HeaderSeq,
    pub body: Seq<u8>,
    /// Monotonic instant of storage, in milliseconds.
    pub stored_at: u64,
    /// How long the entry stays fresh, in milliseconds.
    pub freshness: Option<u128>,
    pub must_revalidate: bool,
    pub etag: Option<Seq<u8>>,
    pub last_modified: Option<Seq<u8>>,
}

/// Milliseconds since `e` was stored; an earlier clock reading counts as zero.
pub open spec fn elapsed(e: EntryView, now: u64) -> int {
    if now >= e.stored_at {
        now - e.stored_at
    } else {
        0
    }
}

pub open spec fn is_fresh(e: EntryView, now: u64) -> bool {
    match e.freshness {
        Some(f) => elapsed(e, now) < f,
        None => false,
    }
}

pub open spec fn can_revalidate(e: EntryView) -> bool {
    e.etag is Some || e.last_modified is Some
}

/// The response synthesized from `e`: its status, headers and body, with
/// `Age` set to the whole seconds since it was stored.
pub open spec fn served(e: EntryView, now: u64) -> ResponseView {
    ResponseView {
        status: e.status,
        headers: with_header(e.headers, ascii_of("age"@), decimal((elapsed(e, now) / 1000) as nat)),
        body: e.body,
    }
}

/// Request headers with the validators of `e` attached.
pub open spec fn conditional_headers(hs: HeaderSeq, e: EntryView) -> HeaderSeq {
    let h1 = match e.etag {
        Some(t) => with_header(hs, ascii_of("if-none-match"@), t),
        None => hs,
    };
    match e.last_modified {
        Some(m) => with_header(h1, ascii_of("if-modified-since"@), m),
        None => h1,
    }
}

/// The freshness that a response's own headers give it.
pub open spec fn freshness_of(cc: CacheControl, hs: HeaderSeq, unix_now_ms: u64) -> Option<u128> {
    match cc.max_age {
        Some(s) => Some((s * 1000) as u128),
        None => expires_in(hs, unix_now_ms),
    }
}

/// The entry that a response would become.
pub open spec fn entry_from(
    r: ResponseView,
    now: u64,
    unix_now_ms: u64,
    request_no_cache: bool,
) -> EntryView {
    let cc = cache_control_of(r.headers);
    EntryView {
        status: r.status,
        headers: r.headers,
        body: r.body,
        stored_at: now,
        freshness: freshness_of(cc, r.headers, unix_now_ms),
        must_revalidate: cc.no_cache || cc.must_revalidate || request_no_cache,
        etag: first_value(r.headers, ascii_of("etag"@)),
        last_modified: first_value(r.headers, ascii_of("last-modified"@)),
    }
}

/// Whether an entry is worth keeping: it has a freshness, or it is kept for revalidation.
pub open spec fn worth_storing(e: EntryView) -> bool {
    e.freshness is Some || e.must_revalidate
}

pub open spec fn merge_one(h: HeaderSeq, src: HeaderSeq, name: Seq<u8>) -> HeaderSeq {
    match first_value(src, name) {
        Some(v) => with_header(h, name, v),
        None => h,
    }
}

/// The stored headers after a `304`: `Cache-Control`, `ETag`, `Expires`,
/// `Date` and `Last-Modified` are taken from the `304` where it has them.
pub open spec fn merged_headers(h: HeaderSeq, src: HeaderSeq) -> HeaderSeq {
    merge_one(
        merge_one(
            merge_one(
                merge_one(merge_one(h, src, ascii_of("cache-control"@)), src, ascii_of("etag"@)),
                src,
                ascii_of("expires"@),
            ),
            src,
            ascii_of("date"@),
        ),
        src,
        ascii_of("last-modified"@),
    )
}

/// `e` refreshed by a `304 Not Modified` with headers `src`: stored now,
/// its freshness read again from the merged `Cache-Control` (else the merged
/// `Expires`, else kept), and its validators taken from the `304` where it has them.
pub open spec fn refreshed(e: EntryView, src: HeaderSeq, now: u64, unix_now_ms: u64) -> EntryView {
    let h = merged_headers(e.headers, src);
    let cc = cache_control_of(h);
    EntryView {
        headers: h,
        stored_at: now,
        freshness: match cc.max_age {
            Some(s) => Some((s * 1000) as u128),
            None => match expires_in(h, unix_now_ms) {
                Some(d) => Some(d),
                None => e.freshness,
            },
        },
        must_revalidate: e.must_revalidate || cc.no_cache || cc.must_revalidate,
        etag: match first_value(src, ascii_of("etag"@)) {
            Some(t) => Some(t),
            None => e.etag,
        },
        last_modified: match first_value(src, ascii_of("last-modified"@)) {
            Some(m) => Some(m),
            None => e.last_modified,
        },
        ..e
    }
}

/// A response stored by the cache.
pub struct CachedResponse {
    status: u16,
    headers: Headers,
    body: Vec<u8>,
    stored_at: u64,
    freshness: Option<u128>,
    must_revalidate: bool,
    etag: Option<Vec<u8>>,
    last_modified: Option<Vec<u8>>,
}

pub open spec fn opt_view(o: Option<Vec<u8>>) -> Option<Seq<u8>> {
    match o {
        Some(v) => Some(v@),
        None => None,
    }
}

impl View for CachedResponse {
    type V = EntryView;

    closed spec fn view(&self) -> EntryView {
        EntryView {
            status: self.status,
            headers: self.headers@,
            body: self.body@,
            stored_at: self.stored_at,
            freshness: self.freshness,
            must_revalidate: self.must_revalidate,
            etag: opt_view(self.etag),
            last_modified: opt_view(self.last_modified),
        }
    }
}

fn copy_opt(o: &Option<Vec<u8>>) -> (r: Option<Vec<u8>>)
    ensures
        opt_view(r) == opt_view(*o),
{
    match o {
        Some(v) => Some(to_vec(v.as_slice())),
        None => None,
    }
}

fn opt_from(o: Option<&[u8]>) -> (r: Option<Vec<u8>>)
    ensures
        opt_view(r) == match o {
            Some(v) => Some(v@),
            None => None::<Seq<u8>>,
        },
{
    match o {
        Some(v) => Some(to_vec(v)),
        None => None,
    }
}

/// Reads the `Expires` header of `headers`.
fn expires_in_exec(headers: &Headers, unix_now_ms: u64) -> (r: Option<u128>)
    ensures
        r == expires_in(headers@, unix_now_ms),
{
    proof {
        reveal_strlit("expires");
    }
    let name = literal("expires");
    match headers.get(name.as_slice()) {
        Some(v) => {
            if !is_all_visible(v) {
                return None;
            }
            match parse_http_date(v) {
                Some(t) => {
                    let at = (t as u128) * 1000;
                    if at > unix_now_ms as u128 {
                        Some(at - unix_now_ms as u128)
                    } else {
                        None
                    }
                },
                None => None,
            }
        },
        None => None,
    }
}

impl CachedResponse {
    fn duplicate(&self) -> (r: CachedResponse)
        ensures
            r@ == self@,
    {
        CachedResponse {
            status: self.status,
            headers: self.headers.duplicate(),
            body: to_vec(self.body.as_slice()),
            stored_at: self.stored_at,
            freshness: self.freshness,
            must_revalidate: self.must_revalidate,
            etag: copy_opt(&self.etag),
            last_modified: copy_opt(&self.last_modified),
        }
    }

    fn elapsed(&self, now: u64) -> (r: u64)
        ensures
            r == elapsed(self@, now),
    {
        if now >= self.stored_at {
            now - self.stored_at
        } else {
            0
        }
    }

    fn is_fresh(&self, now: u64) -> (r: bool)
        ensures
            r == is_fresh(self@, now),
    {
        match self.freshness {
            Some(f) => (self.elapsed(now) as u128) < f,
            None => false,
        }
    }

    fn can_revalidate(&self) -> (r: bool)
        ensures
            r == can_revalidate(self@),
    {
        self.etag.is_some() || self.last_modified.is_some()
    }

    /// Builds an entry from a response, where the response is worth storing.
    fn from_response(
        response: &Response,
        now: u64,
        unix_now_ms: u64,
        request_no_cache: bool,
    ) -> (r: Option<CachedResponse>)
        ensures
            match r {
                Some(e) => e@ == entry_from(response@, now, unix_now_ms, request_no_cache)
                    && worth_storing(e@),
                None => !worth_storing(entry_from(response@, now, unix_now_ms, request_no_cache)),
            },
    {
        proof {
            reveal_strlit("etag");
            reveal_strlit("last-modified");
        }
        let cc = CacheControl::from_header_map(&response.headers);
        let freshness = match cc.max_age {
            Some(s) => Some((s as u128) * 1000),
            None => expires_in_exec(&response.headers, unix_now_ms),
        };
        let must_revalidate = cc.no_cache || cc.must_revalidate || request_no_cache;
        if freshness.is_none() && !must_revalidate {
            return None;
        }
        let etag_name = literal("etag");
        let lm_name = literal("last-modified");
        Some(
            CachedResponse {
                status: response.status,
                headers: response.headers.duplicate(),
                body: to_vec(response.body.as_slice()),
                stored_at: now,
                freshness,
                must_revalidate,
                etag: opt_from(response.headers.get(etag_name.as_slice())),
                last_modified: opt_from(response.headers.get(lm_name.as_slice())),
            },
        )
    }

    /// Attaches `If-None-Match` and `If-Modified-Since` from the validators.
    fn apply_conditional_headers(&self, headers: &mut Headers)
        ensures
            final(headers)@ == conditional_headers(old(headers)@, self@),
    {
        proof {
            reveal_strlit("if-none-match");
            reveal_strlit("if-modified-since");
        }
        if let Some(t) = &self.etag {
            headers.insert(literal("if-none-match").as_slice(), t.as_slice());
        }
        if let Some(m) = &self.last_modified {
            headers.insert(literal("if-modified-since").as_slice(), m.as_slice());
        }
    }

    fn merge_header(&mut self, src: &Headers, name: &str)
        requires
            vstd::string::is_ascii(name),
        ensures
            final(self)@ == (EntryView {
                headers: merge_one(old(self)@.headers, src@, ascii_of(name@)),
                ..old(self)@
            }),
    {
        let n = literal(name);
        match src.get(n.as_slice()) {
            Some(v) => {
                self.headers.insert(n.as_slice(), v);
            },
            None => {},
        }
    }

    /// Refreshes the entry from a `304 Not Modified` response.
    fn update_from_304(&mut self, src: &Headers, now: u64, unix_now_ms: u64)
        ensures
            final(self)@ == refreshed(old(self)@, src@, now, unix_now_ms),
    {
        proof {
            reveal_strlit("cache-control");
            reveal_strlit("etag");
            reveal_strlit("expires");
            reveal_strlit("date");
            reveal_strlit("last-modified");
        }
        self.stored_at = now;
        self.merge_header(src, "cache-control");
        self.merge_header(src, "etag");
        self.merge_header(src, "expires");
        self.merge_header(src, "date");
        self.merge_header(src, "last-modified");
        let cc = CacheControl::from_header_map(&self.headers);
        match cc.max_age {
            Some(s) => {
                self.freshness = Some((s as u128) * 1000);
            },
            None => {
                match expires_in_exec(&self.headers, unix_now_ms) {
                    Some(d) => {
                        self.freshness = Some(d);
                    },
                    None => {},
                }
            },
        }
        if cc.no_cache || cc.must_revalidate {
            self.must_revalidate = true;
        }
        let etag_name = literal("etag");
        if let Some(t) = src.get(etag_name.as_slice()) {
            self.etag = Some(to_vec(t));
        }
        let lm_name = literal("last-modified");
        if let Some(m) = src.get(lm_name.as_slice()) {
            self.last_modified = Some(to_vec(m));
        }
    }

    /// The response served from this entry, with its `Age` header.
    fn to_response(&self, now: u64) -> (r: Response)
        ensures
            r@ == served(self@, now),
    {
        proof {
            reveal_strlit("age");
        }
        let mut headers = self.headers.duplicate();
        let mut age: Vec<u8> = Vec::new();
        push_decimal(&mut age, self.elapsed(now) / 1000);
        assert(age@ =~= decimal((elapsed(self@, now) / 1000) as nat));
        headers.insert(literal("age").as_slice(), age.as_slice());
        Response { status: self.status, headers, body: to_vec(self.body.as_slice()) }
    }
}

/// The cache key of a request: its URI, for `GET` alone.
pub open spec fn cache_key(r: RequestView) -> Option<Seq<char>> {
    if r.method == Method::Get {
        Some(r.uri)
    } else {
        None
    }
}

/// What the cache does with a request before it is sent.
pub enum LookupPlan {
    /// Not cacheable: sent on untouched.
    Bypass,
    /// The request forbids storage: its entry is evicted and it is sent on.
    Evict,
    /// A fresh entry answers the request; nothing is sent.
    Serve(EntryView),
    /// The entry is taken out and the request is sent with its validators.
    Revalidate(EntryView),
    /// A stale entry without validators is evicted and the request is sent on.
    Discard,
    /// The request is sent on; the table is left as it is.
    Miss,
}

pub open spec fn plan(m: Map<Seq<char>, EntryView>, r: RequestView, now: u64) -> LookupPlan {
    let cc = cache_control_of(r.headers);
    match cache_key(r) {
        None => LookupPlan::Bypass,
        Some(k) => if cc.no_store {
            LookupPlan::Evict
        } else if m.contains_key(k) {
            let e = m[k];
            let stale = e.must_revalidate || !is_fresh(e, now);
            if !cc.no_cache && !stale {
                LookupPlan::Serve(e)
            } else if can_revalidate(e) {
                LookupPlan::Revalidate(e)
            } else if stale {
                LookupPlan::Discard
            } else {
                LookupPlan::Miss
            }
        } else {
            LookupPlan::Miss
        },
    }
}

/// The table after the lookup step.
pub open spec fn map_after_lookup(m: Map<Seq<char>, EntryView>, r: RequestView, now: u64) -> Map<
    Seq<char>,
    EntryView,
> {
    match plan(m, r, now) {
        LookupPlan::Evict | LookupPlan::Revalidate(_) | LookupPlan::Discard => m.remove(r.uri),
        _ => m,
    }
}

/// What the lookup step remembers for the response step.
pub struct TicketView {
    pub key: Option<Seq<char>>,
    pub pending: Option<EntryView>,
    pub request_no_cache: bool,
    pub auth_present: bool,
    pub now: u64,
}

pub open spec fn ticket_for(m: Map<Seq<char>, EntryView>, r: RequestView, now: u64) -> TicketView {
    let p = plan(m, r, now);
    TicketView {
        key: match p {
            LookupPlan::Bypass | LookupPlan::Evict => None,
            _ => Some(r.uri),
        },
        pending: match p {
            LookupPlan::Revalidate(e) => Some(e),
            _ => None,
        },
        request_no_cache: cache_control_of(r.headers).no_cache,
        auth_present: has_name(r.headers, ascii_of("authorization"@)),
        now,
    }
}

/// What the response step does.
pub enum StorePlan {
    /// The response is returned unchanged and the table left alone.
    PassOn,
    /// The entry is stored and the response served from it.
    Store(EntryView),
}

pub open spec fn store_plan(t: TicketView, resp: ResponseView, unix_now_ms: u64) -> StorePlan {
    match t.key {
        None => StorePlan::PassOn,
        Some(_) => if resp.status == 304 {
            match t.pending {
                Some(e) => StorePlan::Store(refreshed(e, resp.headers, t.now, unix_now_ms)),
                None => StorePlan::PassOn,
            }
        } else {
            let cc = cache_control_of(resp.headers);
            let e = entry_from(resp, t.now, unix_now_ms, t.request_no_cache);
            if (!t.auth_present || cc.public) && !cc.no_store && worth_storing(e) {
                StorePlan::Store(e)
            } else {
                StorePlan::PassOn
            }
        },
    }
}

/// The first entry from the end of `s` stored under `k`.
pub open spec fn slot_lookup(s: Seq<(String, CachedResponse)>, k: Seq<char>) -> Option<EntryView>
    decreases s.len(),
{
    if s.len() == 0 {
        None
    } else if s.last().0@ == k {
        Some(s.last().1@)
    } else {
        slot_lookup(s.drop_last(), k)
    }
}

/// The ticket that the lookup step hands to the response step.
pub struct CacheTicket {
    key: Option<String>,
    pending: Option<CachedResponse>,
    request_no_cache: bool,
    auth_present: bool,
    now: u64,
}

impl View for CacheTicket {
    type V = TicketView;

    closed spec fn view(&self) -> TicketView {
        TicketView {
            key: match self.key {
                Some(k) => Some(k@),
                None => None,
            },
            pending: match self.pending {
                Some(e) => Some(e@),
                None => None,
            },
            request_no_cache: self.request_no_cache,
            auth_present: self.auth_present,
            now: self.now,
        }
    }
}

/// The outcome of the lookup step.
pub enum CacheLookup {
    /// A fresh entry answered the request.
    Fresh(Response),
    /// The request must be sent; hand the ticket back with the response.
    Forward(CacheTicket),
}

/// Middleware state of an in-memory HTTP cache, keyed by request URI.
pub struct Cache {
    entries: Vec<(String, CachedResponse)>,
}

impl View for Cache {
    type V = Map<Seq<char>, EntryView>;

    closed spec fn view(&self) -> Map<Seq<char>, EntryView> {
        Map::new(
            |k: Seq<char>| slot_lookup(self.entries@, k) is Some,
            |k: Seq<char>| slot_lookup(self.entries@, k).unwrap(),
        )
    }
}

impl Cache {
    /// An empty cache.
    pub fn new() -> (r: Cache)
        ensures
            r@ == Map::<Seq<char>, EntryView>::empty(),
    {
        let r = Cache { entries: Vec::new() };
        assert(r@ =~= Map::<Seq<char>, EntryView>::empty());
        r
    }

    fn find(&self, key: &String) -> (r: Option<usize>)
        ensures
            match r {
                Some(i) => i < self.entries@.len() && self@.contains_key(key@) && self@[key@]
                    == self.entries@[i as int].1@,
                None => !self@.contains_key(key@),
            },
    {
        let mut i = self.entries.len();
        assert(self.entries@.take(i as int) =~= self.entries@);
        while i > 0
            invariant
                i <= self.entries@.len(),
                slot_lookup(self.entries@, key@) == slot_lookup(self.entries@.take(i as int), key@),
            decreases i,
        {
            assert(self.entries@.take(i as int).drop_last() =~= self.entries@.take(i - 1));
            if self.entries[i - 1].0 == *key {
                return Some(i - 1);
            }
            i = i - 1;
        }
        None
    }

    /// Drops every entry stored under `key`.
    fn evict(&mut self, key: &String)
        ensures
            final(self)@ == old(self)@.remove(key@),
    {
        let mut kept: Vec<(String, CachedResponse)> = Vec::new();
        let ghost s = self.entries@;
        let mut i: usize = 0;
        while i < self.entries.len()
            invariant
                i <= s.len(),
                s == self.entries@,
                forall|k: Seq<char>|
                    #[trigger] slot_lookup(kept@, k) == if k == key@ {
                        None
                    } else {
                        slot_lookup(s.take(i as int), k)
                    },
            decreases s.len() - i,
        {
            assert(s.take(i + 1).drop_last() =~= s.take(i as int));
            assert(s.take(i + 1).last() == s[i as int]);
            if self.entries[i].0 != *key {
                let k2 = self.entries[i].0.clone();
                let e2 = self.entries[i].1.duplicate();
                let ghost before = kept@;
                kept.push((k2, e2));
                assert(kept@.drop_last() =~= before);
                assert forall|k: Seq<char>|
                    #[trigger] slot_lookup(kept@, k) == if k == key@ {
                        None
                    } else {
                        slot_lookup(s.take(i + 1), k)
                    } by {
                    assert(slot_lookup(before, k) == if k == key@ {
                        None
                    } else {
                        slot_lookup(s.take(i as int), k)
                    });
                }
            } else {
                assert forall|k: Seq<char>|
                    #[trigger] slot_lookup(kept@, k) == if k == key@ {
                        None
                    } else {
                        slot_lookup(s.take(i + 1), k)
                    } by {
                    assert(slot_lookup(kept@, k) == if k == key@ {
                        None
                    } else {
                        slot_lookup(s.take(i as int), k)
                    });
                }
            }
            i = i + 1;
        }
        assert(s.take(i as int) =~= s);
        self.entries = kept;
        assert(final(self)@ =~= old(self)@.remove(key@));
    }

    /// Stores `e` under `key`, replacing what was there.
    fn store(&mut self, key: String, e: CachedResponse)
        ensures
            final(self)@ == old(self)@.insert(key@, e@),
    {
        self.evict(&key);
        let ghost mid = self.entries@;
        let ghost m_mid = self@;
        let ghost kv = key@;
        let ghost ev = e@;
        self.entries.push((key, e));
        assert(self.entries@.drop_last() =~= mid);
        assert forall|k: Seq<char>|
            #[trigger] slot_lookup(self.entries@, k) == if k == kv {
                Some(ev)
            } else {
                slot_lookup(mid, k)
            } by {}
        assert(self@ =~= m_mid.insert(kv, ev));
    }

    /// The step before a request is sent: serves a fresh entry, or readies
    /// the request (adding validators where an entry is revalidated) and
    /// returns the ticket for [`Cache::complete`].
    pub fn lookup(&mut self, request: &mut Request, now: u64) -> (r: CacheLookup)
        ensures
            final(self)@ == map_after_lookup(old(self)@, old(request)@, now),
            final(request).method == old(request).method,
            final(request).uri@ == old(request).uri@,
            final(request).body@ == old(request).body@,
            match plan(old(self)@, old(request)@, now) {
                LookupPlan::Serve(e) => r matches CacheLookup::Fresh(resp) && resp@ == served(
                    e,
                    now,
                ) && final(request).headers@ == old(request).headers@,
                LookupPlan::Revalidate(e) => r matches CacheLookup::Forward(t) && t@ == ticket_for(
                    old(self)@,
                    old(request)@,
                    now,
                ) && final(request).headers@ == conditional_headers(old(request).headers@, e),
                _ => r matches CacheLookup::Forward(t) && t@ == ticket_for(
                    old(self)@,
                    old(request)@,
                    now,
                ) && final(request).headers@ == old(request).headers@,
            },
    {
        proof {
            reveal_strlit("authorization");
        }
        let cc = CacheControl::from_header_map(&request.headers);
        let auth_present = request.headers.contains_key(literal("authorization").as_slice());
        let mut ticket = CacheTicket {
            key: None,
            pending: None,
            request_no_cache: cc.no_cache,
            auth_present,
            now,
        };
        if request.method != Method::Get {
            return CacheLookup::Forward(ticket);
        }
        if cc.no_store {
            self.evict(&request.uri);
            return CacheLookup::Forward(ticket);
        }
        ticket.key = Some(request.uri.clone());
        match self.find(&request.uri) {
            None => CacheLookup::Forward(ticket),
            Some(i) => {
                let stale = self.entries[i].1.must_revalidate || !self.entries[i].1.is_fresh(now);
                if !cc.no_cache && !stale {
                    CacheLookup::Fresh(self.entries[i].1.to_response(now))
                } else if self.entries[i].1.can_revalidate() {
                    let e = self.entries[i].1.duplicate();
                    e.apply_conditional_headers(&mut request.headers);
                    self.evict(&request.uri);
                    ticket.pending = Some(e);
                    CacheLookup::Forward(ticket)
                } else if stale {
                    self.evict(&request.uri);
                    CacheLookup::Forward(ticket)
                } else {
                    CacheLookup::Forward(ticket)
                }
            },
        }
    }

    /// The step after the response arrived: refreshes an entry on `304`,
    /// stores a response that may be kept, and returns what the caller gets.
    pub fn complete(&mut self, ticket: CacheTicket, response: Response, unix_now_ms: u64) -> (r:
        Response)
        ensures
            match store_plan(ticket@, response@, unix_now_ms) {
                StorePlan::PassOn => final(self)@ == old(self)@ && r@ == response@,
                StorePlan::Store(e) => final(self)@ == old(self)@.insert(ticket@.key.unwrap(), e)
                    && r@ == served(e, ticket@.now),
            },
    {
        let CacheTicket { key, pending, request_no_cache, auth_present, now } = ticket;
        let key = match key {
            None => return response,
            Some(k) => k,
        };
        if response.status == 304 {
            match pending {
                Some(mut e) => {
                    e.update_from_304(&response.headers, now, unix_now_ms);
                    let out = e.to_response(now);
                    self.store(key, e);
                    return out;
                },
                None => return response,
            }
        }
        let cc = CacheControl::from_header_map(&response.headers);
        if (!auth_present || cc.public) && !cc.no_store {
            match CachedResponse::from_response(&response, now, unix_now_ms, request_no_cache) {
                Some(e) => {
                    let out = e.to_response(now);
                    self.store(key, e);
                    out
                },
                None => response,
            }
        } else {
            response
        }
    }
}

/// A response with `max-age=N` (and no `no-cache`, `no-store` or
/// `must-revalidate`) to a forwarded plain `GET` is stored, and the same
/// request at any instant less than N seconds later is answered from the
/// cache, with the stored status and body and without being sent.
pub proof fn lemma_fresh_response_served_again(
    m: Map<Seq<char>, EntryView>,
    req: RequestView,
    resp: ResponseView,
    n: u64,
    now: u64,
    later: u64,
    unix_now_ms: u64,
)
    requires
        req.method == Method::Get,
        !cache_control_of(req.headers).no_store,
        !cache_control_of(req.headers).no_cache,
        !has_name(req.headers, ascii_of("authorization"@)),
        !(plan(m, req, now) is Serve),
        resp.status != 304,
        cache_control_of(resp.headers).max_age == Some(n),
        !cache_control_of(resp.headers).no_cache,
        !cache_control_of(resp.headers).no_store,
        !cache_control_of(resp.headers).must_revalidate,
        now <= later,
        later - now < n * 1000,
    ensures
        store_plan(ticket_for(m, req, now), resp, unix_now_ms) matches StorePlan::Store(e) && ({
            let m2 = map_after_lookup(m, req, now).insert(req.uri, e);
            &&& plan(m2, req, later) == LookupPlan::Serve(e)
            &&& served(e, later).status == resp.status
            &&& served(e, later).body == resp.body
        }),
{
    let e = entry_from(resp, now, unix_now_ms, false);
    assert(is_fresh(e, later));
    let m2 = map_after_lookup(m, req, now).insert(req.uri, e);
    assert(m2[req.uri] == e);
}

/// A response marked `no-store` is never stored: the table is left as it
/// was, so a request whose key had no entry is sent again next time.
pub proof fn lemma_no_store_never_cached(
    m: Map<Seq<char>, EntryView>,
    req: RequestView,
    resp: ResponseView,
    now: u64,
    later: u64,
    unix_now_ms: u64,
)
    requires
        resp.status != 304,
        cache_control_of(resp.headers).no_store,
    ensures
        store_plan(ticket_for(m, req, now), resp, unix_now_ms) == StorePlan::PassOn,
        !map_after_lookup(m, req, now).contains_key(req.uri) ==> !(plan(
            map_after_lookup(m, req, now),
            req,
            later,
        ) is Serve),
{
}

/// An entry kept for revalidation (`no-cache` or `must-revalidate`) with an
/// `ETag` is never served without asking: every later request is sent with
/// `If-None-Match` set to that tag, a `304` answer returns the stored status
/// and body, and the refreshed entry is revalidated again next time.
pub proof fn lemma_revalidation_with_etag(
    m: Map<Seq<char>, EntryView>,
    req: RequestView,
    tag: Seq<u8>,
    resp: ResponseView,
    later: u64,
    unix_now_ms: u64,
)
    requires
        req.method == Method::Get,
        !cache_control_of(req.headers).no_store,
        m.contains_key(req.uri),
        m[req.uri].must_revalidate,
        m[req.uri].etag == Some(tag),
        resp.status == 304,
    ensures
        plan(m, req, later) == LookupPlan::Revalidate(m[req.uri]),
        first_value(conditional_headers(req.headers, m[req.uri]), ascii_of("if-none-match"@))
            == Some(tag),
        store_plan(ticket_for(m, req, later), resp, unix_now_ms) matches StorePlan::Store(e2) && ({
            &&& served(e2, later).status == m[req.uri].status
            &&& served(e2, later).body == m[req.uri].body
            &&& e2.must_revalidate
            &&& e2.etag is Some
        }),
{
    let e = m[req.uri];
    let h1 = with_header(req.headers, ascii_of("if-none-match"@), tag);
    crate::headers::lemma_with_header(req.headers, ascii_of("if-none-match"@), tag, ascii_of("if-none-match"@));
    if let Some(lm) = e.last_modified {
        reveal_strlit("if-modified-since");
        reveal_strlit("if-none-match");
        crate::bytes::lemma_lengths_differ(ascii_of("if-modified-since"@), ascii_of("if-none-match"@));
        crate::headers::lemma_with_header(h1, ascii_of("if-modified-since"@), lm, ascii_of("if-none-match"@));
    }
}

/// The table after one request at `at` whose forwarded request is answered
/// with `resp`: the lookup step, then the response step.
pub open spec fn round(
    m: Map<Seq<char>, EntryView>,
    req: RequestView,
    at: u64,
    resp: ResponseView,
    unix_now_ms: u64,
) -> Map<Seq<char>, EntryView> {
    match store_plan(ticket_for(m, req, at), resp, unix_now_ms) {
        StorePlan::Store(e) => map_after_lookup(m, req, at).insert(req.uri, e),
        StorePlan::PassOn => map_after_lookup(m, req, at),
    }
}

/// The table after the same request is made at each instant of `times` in turn.
pub open spec fn rounds(
    m: Map<Seq<char>, EntryView>,
    req: RequestView,
    times: Seq<u64>,
    resp: ResponseView,
    unix_now_ms: u64,
) -> Map<Seq<char>, EntryView>
    decreases times.len(),
{
    if times.len() == 0 {
        m
    } else {
        round(rounds(m, req, times.drop_last(), resp, unix_now_ms), req, times.last(), resp, unix_now_ms)
    }
}

/// The entry under `k` still demands revalidation, has an `ETag`, and keeps `status` and `body`.
pub open spec fn revalidating_entry(m: Map<Seq<char>, EntryView>, k: Seq<char>, status: u16, body: Seq<u8>) -> bool {
    &&& m.contains_key(k)
    &&& m[k].must_revalidate
    &&& m[k].etag is Some
    &&& m[k].status == status
    &&& m[k].body == body
}

proof fn lemma_rounds_prefix(
    m: Map<Seq<char>, EntryView>,
    req: RequestView,
    resp: ResponseView,
    times: Seq<u64>,
    unix_now_ms: u64,
    i: int,
)
    requires
        req.method == Method::Get,
        !cache_control_of(req.headers).no_store,
        resp.status == 304,
        revalidating_entry(m, req.uri, m[req.uri].status, m[req.uri].body),
        0 <= i <= times.len(),
    ensures
        revalidating_entry(
            rounds(m, req, times.take(i), resp, unix_now_ms),
            req.uri,
            m[req.uri].status,
            m[req.uri].body,
        ),
    decreases i,
{
    if i > 0 {
        lemma_rounds_prefix(m, req, resp, times, unix_now_ms, i - 1);
        assert(times.take(i).drop_last() =~= times.take(i - 1));
        let mi = rounds(m, req, times.take(i - 1), resp, unix_now_ms);
        lemma_revalidation_with_etag(mi, req, mi[req.uri].etag.unwrap(), resp, times[i - 1], unix_now_ms);
    } else {
        assert(times.take(0) =~= Seq::<u64>::empty());
    }
}

/// Over any number of requests for an entry kept for revalidation, each
/// answered `304`: every request is sent (never served unasked), carries
/// `If-None-Match`, and gets the stored status and body back; so the server
/// sees one conditional request per call.
pub proof fn lemma_revalidation_every_round(
    m: Map<Seq<char>, EntryView>,
    req: RequestView,
    resp: ResponseView,
    times: Seq<u64>,
    unix_now_ms: u64,
)
    requires
        req.method == Method::Get,
        !cache_control_of(req.headers).no_store,
        m.contains_key(req.uri),
        m[req.uri].must_revalidate,
        m[req.uri].etag is Some,
        resp.status == 304,
    ensures
        forall|i: int|
            0 <= i < times.len() ==> {
                let mi = #[trigger] rounds(m, req, times.take(i), resp, unix_now_ms);
                &&& plan(mi, req, times[i]) == LookupPlan::Revalidate(mi[req.uri])
                &&& first_value(conditional_headers(req.headers, mi[req.uri]), ascii_of("if-none-match"@)) is Some
                &&& store_plan(ticket_for(mi, req, times[i]), resp, unix_now_ms) matches StorePlan::Store(e2)
                    && served(e2, times[i]).status == m[req.uri].status
                    && served(e2, times[i]).body == m[req.uri].body
            },
{
    assert forall|i: int| 0 <= i < times.len() implies {
        let mi = #[trigger] rounds(m, req, times.take(i), resp, unix_now_ms);
        &&& plan(mi, req, times[i]) == LookupPlan::Revalidate(mi[req.uri])
        &&& first_value(conditional_headers(req.headers, mi[req.uri]), ascii_of("if-none-match"@)) is Some
        &&& store_plan(ticket_for(mi, req, times[i]), resp, unix_now_ms) matches StorePlan::Store(e2)
            && served(e2, times[i]).status == m[req.uri].status
            && served(e2, times[i]).body == m[req.uri].body
    } by {
        lemma_rounds_prefix(m, req, resp, times, unix_now_ms, i);
        let mi = rounds(m, req, times.take(i), resp, unix_now_ms);
        lemma_revalidation_with_etag(mi, req, mi[req.uri].etag.unwrap(), resp, times[i], unix_now_ms);
    }
}

/// The first answer in a revalidation run: a response with an `ETag` and
/// `no-cache` to a forwarded plain `GET` is stored as an entry that every
/// later request must revalidate, with the response's status and body.
pub proof fn lemma_no_cache_response_kept_for_revalidation(
    m: Map<Seq<char>, EntryView>,
    req: RequestView,
    resp: ResponseView,
    now: u64,
    unix_now_ms: u64,
)
    requires
        req.method == Method::Get,
        !cache_control_of(req.headers).no_store,
        !has_name(req.headers, ascii_of("authorization"@)),
        !(plan(m, req, now) is Serve),
        resp.status != 304,
        cache_control_of(resp.headers).no_cache,
        !cache_control_of(resp.headers).no_store,
        first_value(resp.headers, ascii_of("etag"@)) is Some,
    ensures
        revalidating_entry(round(m, req, now, resp, unix_now_ms), req.uri, resp.status, resp.body),
{
}

} // verus!
