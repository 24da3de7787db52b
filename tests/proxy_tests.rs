use zenwave::backend::{decode_basic_auth, resolve_proxy, CurlBackend, CurlError, ProxyKind};
use zenwave::proxy::{Proxy, ProxyConfig};

#[test]
fn scheme_specific_proxy_wins_over_all() {
    let proxy = Proxy::builder()
        .http("http://proxy.local:8080".into())
        .all("http://fallback.local:3128".into())
        .build();
    let i = proxy.intercept("http://example.com/").unwrap();
    assert_eq!(i.uri().map(|s| s.as_str()), Some("proxy.local:8080"));
    let i = proxy.intercept("https://example.com/").unwrap();
    assert_eq!(i.uri().map(|s| s.as_str()), Some("fallback.local:3128"));
    assert!(proxy.intercept("ftp://example.com/").is_none());
}

#[test]
fn no_proxy_entries_bypass_by_suffix_and_case() {
    let proxy = Proxy::builder()
        .all("http://proxy.local:8080".into())
        .no_proxy("Internal.Example,,localhost".into())
        .build();
    assert!(proxy.intercept("http://api.internal.example/x").is_none());
    assert!(proxy.intercept("http://LOCALHOST:3000/").is_none());
    assert!(proxy.intercept("http://example.com/").is_some());
    assert!(proxy.intercept("/relative").is_none());
}

#[test]
fn proxy_credentials_are_read_from_the_url() {
    let proxy = Proxy::from_env(Some("http://user:pa:ss@proxy.local:8080".into()), None, None, None);
    let i = proxy.intercept("http://example.com/").unwrap();
    assert_eq!(i.basic_auth().map(|v| v.as_slice()), Some(&b"Basic dXNlcjpwYTpzcw=="[..]));
    assert_eq!(i.raw_auth(), Some((&b"user"[..], &b"pa:ss"[..])));
    assert!(ProxyConfig::parse("not a uri".into()).is_none());
    let plain = Proxy::from_system(None, None, Some("http://proxy.local".into()), Some("a.test".into()));
    let i = plain.intercept("https://b.test/").unwrap();
    assert!(i.basic_auth().is_none());
    assert!(i.raw_auth().is_none());
    assert!(plain.intercept("https://a.test/").is_none());
}

#[test]
fn curl_resolves_http_and_socks_proxies() {
    let backend = CurlBackend::with_proxy(Proxy::builder().http("http://u:p@proxy.local:8080".into()).build());
    let i = backend.intercept("http://example.com/").unwrap();
    let r = resolve_proxy(&i).unwrap();
    assert_eq!(r.endpoint, "http://u:p@proxy.local:8080");
    assert_eq!(r.kind, ProxyKind::Http);
    assert_eq!(r.credentials, Some(b"u:p".to_vec()));

    let socks = Proxy::builder().all("socks5h://u:p@s.local:1080".into()).build();
    let i = socks.intercept("https://example.com/").unwrap();
    let r = resolve_proxy(&i).unwrap();
    assert_eq!(r.kind, ProxyKind::Socks5Hostname);
    assert_eq!(r.credentials, Some(b"u:p".to_vec()));

    let odd = Proxy::builder().all("gopher://g.local".into()).build();
    let i = odd.intercept("http://example.com/").unwrap();
    assert!(matches!(resolve_proxy(&i), Err(CurlError::BadRequest(_))));
    assert!(CurlBackend::new().intercept("http://example.com/").is_none());
    assert_eq!(CurlError::bad_gateway("x".into()).status(), 502);
}

#[test]
fn basic_values_decode_to_user_and_password() {
    assert_eq!(decode_basic_auth(b"Basic dXNlcjpwYXNz"), Some((b"user".to_vec(), b"pass".to_vec())));
    assert_eq!(decode_basic_auth(b"Basic dXNlcg=="), Some((b"user".to_vec(), Vec::new())));
    assert_eq!(decode_basic_auth(b"Bearer dXNlcg=="), None);
    assert_eq!(decode_basic_auth(b"Basic !!!"), None);
}

#[test]
fn basic_value_that_is_not_utf8_is_rejected() {
    assert_eq!(decode_basic_auth(b"Basic /w=="), None);
}

#[test]
fn proxy_scheme_is_matched_in_lowercase() {
    let socks = Proxy::builder().all("SOCKS5://u:p@s.local:1080".into()).build();
    let i = socks.intercept("http://example.com/").unwrap();
    let r = resolve_proxy(&i).unwrap();
    assert_eq!(r.kind, ProxyKind::Socks5);
    assert_eq!(r.endpoint, "socks5://u:p@s.local:1080");
}
