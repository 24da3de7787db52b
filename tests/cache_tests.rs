use zenwave::cache::{Cache, CacheLookup};
use zenwave::cache_control::CacheControl;
use zenwave::headers::Headers;
use zenwave::message::{Method, Request, Response};

fn new_request() -> Request {
    Request::new(Method::Get, "http://example.com/data".to_string())
}

fn text_response(status: u16, body: &str, headers: &[(&str, &str)]) -> Response {
    let mut r = Response::new(status);
    for (n, v) in headers {
        r.headers.append(n.as_bytes(), v.as_bytes());
    }
    r.body = body.as_bytes().to_vec();
    r
}

/// Runs one request through the cache, calling `backend` where the cache forwards it.
fn send<F: FnMut(&Request) -> Response>(cache: &mut Cache, mut request: Request, now: u64, backend: &mut F) -> Response {
    match cache.lookup(&mut request, now) {
        CacheLookup::Fresh(resp) => resp,
        CacheLookup::Forward(ticket) => {
            let resp = backend(&request);
            cache.complete(ticket, resp, 1_700_000_000_000)
        }
    }
}

fn body_text(r: &Response) -> String {
    String::from_utf8(r.body.clone()).unwrap()
}

#[test]
fn serves_cached_response_until_expiration() {
    let mut calls = 0;
    let mut backend = |_: &Request| {
        calls += 1;
        text_response(200, "hello", &[("cache-control", "max-age=60")])
    };
    let mut cache = Cache::new();
    let r1 = send(&mut cache, new_request(), 1_000, &mut backend);
    assert_eq!(body_text(&r1), "hello");
    let r2 = send(&mut cache, new_request(), 30_000, &mut backend);
    assert_eq!(body_text(&r2), "hello");
    drop(backend);
    assert_eq!(calls, 1);
}

#[test]
fn respects_no_store() {
    let mut calls = 0;
    let mut backend = |_: &Request| {
        calls += 1;
        text_response(200, "world", &[("cache-control", "no-store")])
    };
    let mut cache = Cache::new();
    for _ in 0..2 {
        let r = send(&mut cache, new_request(), 1_000, &mut backend);
        assert_eq!(body_text(&r), "world");
    }
    drop(backend);
    assert_eq!(calls, 2);
}

#[test]
fn revalidates_using_etag() {
    let mut calls = 0;
    let mut conditional = 0;
    let mut backend = |req: &Request| {
        calls += 1;
        if req.headers.contains_key(b"if-none-match") {
            conditional += 1;
            return text_response(304, "", &[("etag", "\"v1\""), ("cache-control", "no-cache")]);
        }
        text_response(200, "fresh", &[("etag", "\"v1\""), ("cache-control", "no-cache")])
    };
    let mut cache = Cache::new();
    let r1 = send(&mut cache, new_request(), 1_000, &mut backend);
    assert_eq!(body_text(&r1), "fresh");
    let r2 = send(&mut cache, new_request(), 2_000, &mut backend);
    assert_eq!(body_text(&r2), "fresh");
    let r3 = send(&mut cache, new_request(), 3_000, &mut backend);
    assert_eq!(body_text(&r3), "fresh");
    drop(backend);
    assert_eq!(calls, 3);
    assert_eq!(conditional, 2);
}

#[test]
fn entry_expires_after_max_age() {
    let mut calls = 0;
    let mut backend = |_: &Request| {
        calls += 1;
        text_response(200, "hello", &[("cache-control", "max-age=60")])
    };
    let mut cache = Cache::new();
    send(&mut cache, new_request(), 1_000, &mut backend);
    send(&mut cache, new_request(), 60_999, &mut backend);
    send(&mut cache, new_request(), 61_000, &mut backend);
    drop(backend);
    assert_eq!(calls, 2);
}

#[test]
fn served_entry_carries_age_in_seconds() {
    let mut backend = |_: &Request| text_response(200, "hello", &[("cache-control", "max-age=600")]);
    let mut cache = Cache::new();
    let first = send(&mut cache, new_request(), 1_000, &mut backend);
    assert_eq!(first.headers.get(b"age"), Some(&b"0"[..]));
    let later = send(&mut cache, new_request(), 126_500, &mut backend);
    assert_eq!(later.headers.get(b"Age"), Some(&b"125"[..]));
    assert_eq!(later.status, 200);
}

#[test]
fn post_requests_bypass_cache() {
    let mut calls = 0;
    let mut backend = |_: &Request| {
        calls += 1;
        text_response(200, "hello", &[("cache-control", "max-age=60")])
    };
    let mut cache = Cache::new();
    for _ in 0..2 {
        let req = Request::new(Method::Post, "http://example.com/data".to_string());
        send(&mut cache, req, 1_000, &mut backend);
    }
    drop(backend);
    assert_eq!(calls, 2);
}

#[test]
fn authorized_requests_are_not_stored_unless_public() {
    let mut calls = 0;
    let mut backend = |_: &Request| {
        calls += 1;
        text_response(200, "secret", &[("cache-control", "max-age=60")])
    };
    let mut cache = Cache::new();
    for _ in 0..2 {
        let mut req = new_request();
        req.headers.append(b"Authorization", b"Bearer x");
        send(&mut cache, req, 1_000, &mut backend);
    }
    drop(backend);
    assert_eq!(calls, 2);

    let mut calls = 0;
    let mut public = |_: &Request| {
        calls += 1;
        text_response(200, "shared", &[("cache-control", "public, max-age=60")])
    };
    let mut cache = Cache::new();
    for _ in 0..2 {
        let mut req = new_request();
        req.headers.append(b"Authorization", b"Bearer x");
        send(&mut cache, req, 1_000, &mut public);
    }
    drop(public);
    assert_eq!(calls, 1);
}

#[test]
fn request_no_store_evicts_entry() {
    let mut calls = 0;
    let mut backend = |_: &Request| {
        calls += 1;
        text_response(200, "hello", &[("cache-control", "max-age=60")])
    };
    let mut cache = Cache::new();
    send(&mut cache, new_request(), 1_000, &mut backend);
    let mut req = new_request();
    req.headers.append(b"Cache-Control", b"no-store");
    send(&mut cache, req, 2_000, &mut backend);
    send(&mut cache, new_request(), 3_000, &mut backend);
    drop(backend);
    assert_eq!(calls, 3);
}

#[test]
fn expires_header_gives_freshness() {
    let mut calls = 0;
    let mut backend = |_: &Request| {
        calls += 1;
        // The wall clock used below is 2023-11-14 22:13:20 UTC.
        text_response(200, "dated", &[("expires", "Tue, 14 Nov 2023 22:14:20 GMT")])
    };
    let mut cache = Cache::new();
    send(&mut cache, new_request(), 1_000, &mut backend);
    let r = send(&mut cache, new_request(), 50_000, &mut backend);
    assert_eq!(body_text(&r), "dated");
    send(&mut cache, new_request(), 62_000, &mut backend);
    drop(backend);
    assert_eq!(calls, 2);
}

#[test]
fn past_expires_is_not_stored() {
    let mut calls = 0;
    let mut backend = |_: &Request| {
        calls += 1;
        text_response(200, "old", &[("expires", "Thu, 01 Jan 1970 00:00:00 GMT")])
    };
    let mut cache = Cache::new();
    send(&mut cache, new_request(), 1_000, &mut backend);
    send(&mut cache, new_request(), 1_001, &mut backend);
    drop(backend);
    assert_eq!(calls, 2);
}

#[test]
fn unmatched_not_modified_is_returned_as_is() {
    let mut backend = |_: &Request| text_response(304, "", &[]);
    let mut cache = Cache::new();
    let r = send(&mut cache, new_request(), 1_000, &mut backend);
    assert_eq!(r.status, 304);
    assert!(r.headers.get(b"age").is_none());
}

#[test]
fn cache_control_directives_are_parsed() {
    let mut h = Headers::new();
    h.append(b"Cache-Control", b" No-Cache , max-age=+42");
    h.append(b"cache-control", b"must-revalidate,PUBLIC");
    let cc = CacheControl::from_header_map(&h);
    assert!(cc.no_cache);
    assert!(!cc.no_store);
    assert!(cc.must_revalidate);
    assert!(cc.public);
    assert_eq!(cc.max_age, Some(42));

    let mut h = Headers::new();
    h.append(b"cache-control", b"max-age=18446744073709551616, no-store");
    let cc = CacheControl::from_header_map(&h);
    assert_eq!(cc.max_age, None);
    assert!(cc.no_store);

    let mut h = Headers::new();
    h.append(b"cache-control", b"max-age=7");
    h.append(b"cache-control", b"max-age=9");
    assert_eq!(CacheControl::from_header_map(&h).max_age, Some(9));
}

#[test]
fn headers_compare_names_without_case() {
    let mut h = Headers::new();
    h.append(b"X-One", b"1");
    h.append(b"x-two", b"2");
    h.append(b"X-ONE", b"3");
    assert_eq!(h.get(b"x-one"), Some(&b"1"[..]));
    h.insert(b"x-One", b"4");
    assert_eq!(h.len(), 2);
    assert_eq!(h.get(b"X-ONE"), Some(&b"4"[..]));
    h.remove(b"X-TWO");
    assert!(!h.contains_key(b"x-two"));
}

#[test]
fn not_modified_refreshes_entry_from_merged_headers() {
    let mut calls = 0;
    let mut backend = |req: &Request| {
        calls += 1;
        if req.headers.contains_key(b"if-modified-since") {
            return text_response(304, "", &[("cache-control", "max-age=100"), ("date", "today")]);
        }
        text_response(200, "body", &[("last-modified", "yesterday"), ("cache-control", "max-age=1")])
    };
    let mut cache = Cache::new();
    send(&mut cache, new_request(), 0, &mut backend);
    let r = send(&mut cache, new_request(), 5_000, &mut backend);
    assert_eq!(body_text(&r), "body");
    assert_eq!(r.headers.get(b"date"), Some(&b"today"[..]));
    assert_eq!(r.headers.get(b"cache-control"), Some(&b"max-age=100"[..]));
    let again = send(&mut cache, new_request(), 50_000, &mut backend);
    assert_eq!(again.headers.get(b"age"), Some(&b"45"[..]));
    drop(backend);
    assert_eq!(calls, 2);
}
