use zenwave::headers::Headers;
use zenwave::message::{Method, Request, Response};
use zenwave::redirect::{FollowRedirect, FollowRedirectError, RedirectStep};

fn redirect(status: u16, location: &str) -> Response {
    let mut r = Response::new(status);
    r.headers.append(b"location", location.as_bytes());
    r
}

fn post(uri: &str, body: &str) -> Request {
    let mut r = Request::new(Method::Post, uri.to_string());
    r.headers.append(b"content-type", b"text/plain");
    r.headers.append(b"content-length", body.len().to_string().as_bytes());
    r.body = body.as_bytes().to_vec();
    r
}

#[test]
fn found_downgrades_post_to_get() {
    let mut state = FollowRedirect::new().start(post("http://example.com/start", "payload")).unwrap();
    assert_eq!(state.on_response(&redirect(302, "/next")), RedirectStep::Follow);
    let next = state.request().unwrap();
    assert_eq!(next.method, Method::Get);
    assert_eq!(next.uri, "http://example.com/next");
    assert!(next.body.is_empty());
    assert!(!next.headers.contains_key(b"content-type"));
    assert!(!next.headers.contains_key(b"content-length"));
}

#[test]
fn temporary_redirect_keeps_post_and_body() {
    let mut state = FollowRedirect::new().start(post("http://example.com/start", "payload")).unwrap();
    assert_eq!(state.on_response(&redirect(307, "/next")), RedirectStep::Follow);
    let next = state.request().unwrap();
    assert_eq!(next.method, Method::Post);
    assert_eq!(next.body, b"payload".to_vec());
    assert!(next.headers.contains_key(b"content-type"));
    assert!(!next.headers.contains_key(b"content-length"));
}

#[test]
fn see_other_turns_any_method_into_get() {
    let mut req = Request::new(Method::Put, "http://example.com/a".to_string());
    req.body = b"x".to_vec();
    let mut state = FollowRedirect::new().start(req).unwrap();
    state.on_response(&redirect(303, "http://example.com/b"));
    assert_eq!(state.request().unwrap().method, Method::Get);

    let req = Request::new(Method::Head, "http://example.com/a".to_string());
    let mut state = FollowRedirect::new().start(req).unwrap();
    state.on_response(&redirect(301, "/b"));
    assert_eq!(state.request().unwrap().method, Method::Head);
}

#[test]
fn authorization_stripped_across_hosts_and_stays_stripped() {
    let mut req = Request::new(Method::Get, "http://example.com/a".to_string());
    req.headers.append(b"Authorization", b"Bearer secret");
    req.headers.append(b"Cookie", b"session=1");
    let mut state = FollowRedirect::new().start(req).unwrap();

    state.on_response(&redirect(302, "/same-host"));
    let hop1 = state.request().unwrap();
    assert!(hop1.headers.contains_key(b"authorization"));

    state.on_response(&redirect(302, "http://other.example.org/x"));
    let hop2 = state.request().unwrap();
    assert!(!hop2.headers.contains_key(b"authorization"));
    assert!(!hop2.headers.contains_key(b"cookie"));

    state.on_response(&redirect(302, "http://example.com/back"));
    let hop3 = state.request().unwrap();
    assert_eq!(hop3.uri, "http://example.com/back");
    assert!(!hop3.headers.contains_key(b"authorization"));
}

#[test]
fn final_response_ends_the_run() {
    let mut state = FollowRedirect::new().start(Request::new(Method::Get, "http://example.com/".to_string())).unwrap();
    assert_eq!(state.on_response(&Response::new(200)), RedirectStep::Done);
    assert_eq!(state.on_response(&Response::new(500)), RedirectStep::Done);
    assert_eq!(state.redirects(), 0);
}

#[test]
fn too_many_redirects_is_reported() {
    let mut state = FollowRedirect::with_max_redirects(2)
        .start(Request::new(Method::Get, "http://example.com/".to_string()))
        .unwrap();
    assert_eq!(state.on_response(&redirect(302, "/1")), RedirectStep::Follow);
    assert_eq!(state.on_response(&redirect(302, "/2")), RedirectStep::Follow);
    assert_eq!(
        state.on_response(&redirect(302, "/3")),
        RedirectStep::Failed(FollowRedirectError::TooManyRedirects)
    );
    assert_eq!(FollowRedirectError::TooManyRedirects.status(), 500);
}

#[test]
fn default_limit_is_ten() {
    let mut state = FollowRedirect::new()
        .start(Request::new(Method::Get, "http://example.com/".to_string()))
        .unwrap();
    for _ in 0..10 {
        assert_eq!(state.on_response(&redirect(301, "/again")), RedirectStep::Follow);
    }
    assert_eq!(
        state.on_response(&redirect(301, "/again")),
        RedirectStep::Failed(FollowRedirectError::TooManyRedirects)
    );
}

#[test]
fn missing_and_invalid_locations_are_distinct() {
    let start = || FollowRedirect::new().start(Request::new(Method::Get, "http://example.com/".to_string())).unwrap();
    let mut s = start();
    assert_eq!(
        s.on_response(&Response::new(302)),
        RedirectStep::Failed(FollowRedirectError::MissingLocationHeader)
    );
    let mut s = start();
    let mut bad = Response::new(302);
    bad.headers.append(b"location", &[0xff, 0x01]);
    assert_eq!(s.on_response(&bad), RedirectStep::Failed(FollowRedirectError::InvalidLocationHeader));
    assert_eq!(FollowRedirectError::InvalidLocationHeader.status(), 400);
    let mut s = start();
    assert_eq!(
        s.on_response(&redirect(302, "http://[::1")),
        RedirectStep::Failed(FollowRedirectError::InvalidLocationHeader)
    );
}

#[test]
fn relative_request_uri_is_rejected() {
    let r = FollowRedirect::new().start(Request::new(Method::Get, "/relative".to_string()));
    assert!(matches!(r, Err(FollowRedirectError::InvalidUrl)));
}

#[test]
fn host_header_is_dropped() {
    let mut req = Request::new(Method::Get, "http://example.com/a".to_string());
    req.headers.append(b"Host", b"example.com");
    req.headers.append(b"X-Keep", b"1");
    let mut headers = Headers::new();
    headers.append(b"x", b"y");
    let mut state = FollowRedirect::new().start(req).unwrap();
    state.on_response(&redirect(302, "/b"));
    let next = state.request().unwrap();
    assert!(!next.headers.contains_key(b"host"));
    assert_eq!(next.headers.get(b"x-keep"), Some(&b"1"[..]));
}
