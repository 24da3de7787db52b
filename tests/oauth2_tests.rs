use zenwave::auth::{BasicAuth, BearerAuth};
use zenwave::message::{Method, Request};
use zenwave::oauth2::{compute_expiry, OAuth2ClientCredentials, OAuth2Error, TokenResponse};

fn token(access: &str, expires_in: Option<u64>) -> Option<TokenResponse> {
    Some(TokenResponse { access_token: access.to_string(), token_type: Some("Bearer".to_string()), expires_in })
}

#[test]
fn token_expires_before_its_lifetime() {
    assert_eq!(compute_expiry(0, Some(3600), 30_000), 3_570_000);
    assert_eq!(compute_expiry(1_000, None, 30_000), 3_571_000);
    assert_eq!(compute_expiry(0, Some(10), 30_000), 5_000);
    assert_eq!(compute_expiry(0, Some(1), 30_000), 500);
    assert_eq!(compute_expiry(0, Some(3), 30_000), 1_500);
    assert_eq!(compute_expiry(u64::MAX - 5, Some(3600), 30_000), u64::MAX);
}

#[test]
fn token_is_refreshed_before_the_hour_mark() {
    let mut c = OAuth2ClientCredentials::new("https://auth.example.com/token".into(), "abc".into(), "xyz".into());
    let t = c.accept_token_response(200, String::new(), token("token-one", Some(3600)), 0).unwrap();
    assert_eq!(t, "token-one");
    assert_eq!(c.cached_token(3_569_999).as_deref(), Some("token-one"));
    assert_eq!(c.cached_token(3_570_000), None);
}

#[test]
fn concurrent_callers_share_one_fetch() {
    let mut c = OAuth2ClientCredentials::new("https://auth.example.com/token".into(), "abc".into(), "xyz".into());
    let mut fetches = 0;
    let mut tokens = Vec::new();
    // Both callers saw no token before the lock; each re-checks after acquiring it.
    for _ in 0..2 {
        let t = match c.cached_token(10) {
            Some(t) => t,
            None => {
                fetches += 1;
                c.accept_token_response(200, String::new(), token("shared", None), 10).unwrap()
            }
        };
        tokens.push(t);
    }
    assert_eq!(fetches, 1);
    assert_eq!(tokens, vec!["shared".to_string(), "shared".to_string()]);
}

#[test]
fn upstream_and_invalid_responses_are_distinct() {
    let mut c = OAuth2ClientCredentials::new("https://auth.example.com/token".into(), "abc".into(), "xyz".into());
    match c.accept_token_response(401, "denied".into(), None, 0) {
        Err(OAuth2Error::Upstream { status, message }) => {
            assert_eq!(status, 401);
            assert_eq!(message, "denied");
        }
        _ => panic!("expected an upstream error"),
    }
    let e = c.accept_token_response(200, "{}".into(), None, 0).unwrap_err();
    assert!(matches!(e, OAuth2Error::InvalidResponse));
    assert_eq!(e.status(), 502);
    assert_eq!(c.cached_token(0), None);
}

#[test]
fn token_request_is_form_encoded_post() {
    let c = OAuth2ClientCredentials::new("https://auth.example.com/token".into(), "abc".into(), "x y&z".into())
        .with_scope("read write".into())
        .with_audience("api".into());
    assert_eq!(
        c.build_body(),
        "grant_type=client_credentials&client_id=abc&client_secret=x+y%26z&scope=read+write&audience=api"
    );
    let req = c.token_request();
    assert_eq!(req.method, Method::Post);
    assert_eq!(req.uri, "https://auth.example.com/token");
    assert_eq!(req.headers.get(b"Content-Type"), Some(&b"application/x-www-form-urlencoded"[..]));
    assert_eq!(req.body, c.build_body().into_bytes());
}

#[test]
fn acquires_token_and_attaches_header() {
    let mut c = OAuth2ClientCredentials::new("https://auth.example.com/token".into(), "abc".into(), "xyz".into());
    let mut fetches = 0;
    let mut headers = Vec::new();
    for (now, uri) in [(0u64, "https://example.com/"), (1_000, "https://example.com/2")] {
        let token = match c.cached_token(now) {
            Some(t) => t,
            None => {
                fetches += 1;
                c.accept_token_response(200, String::new(), token("token-one", Some(3600)), now).unwrap()
            }
        };
        let mut req = Request::new(Method::Get, uri.to_string());
        c.authorize(&mut req, &token);
        headers.push(req.headers.get(b"authorization").map(|v| v.to_vec()));
    }
    assert_eq!(fetches, 1);
    assert_eq!(headers[0], Some(b"Bearer token-one".to_vec()));
    assert_eq!(headers[1], Some(b"Bearer token-one".to_vec()));
}

#[test]
fn explicit_authorization_wins_over_token() {
    let mut c = OAuth2ClientCredentials::new("https://auth.example.com/token".into(), "abc".into(), "xyz".into());
    let t = c.accept_token_response(200, String::new(), token("token-one", Some(3600)), 0).unwrap();
    let mut explicit = Request::new(Method::Get, "https://example.com/2".to_string());
    explicit.headers.append(b"Authorization", b"Bearer mine");
    c.authorize(&mut explicit, &t);
    assert_eq!(explicit.headers.get(b"authorization"), Some(&b"Bearer mine"[..]));
}

#[test]
fn bearer_and_basic_auth_headers() {
    let mut req = Request::new(Method::Get, "https://example.com/".to_string());
    BearerAuth::new("abc".into()).apply(&mut req);
    assert_eq!(req.headers.get(b"authorization"), Some(&b"Bearer abc"[..]));

    let mut req = Request::new(Method::Get, "https://example.com/".to_string());
    BasicAuth::new("user".into(), Some("pass".to_string())).apply(&mut req);
    assert_eq!(req.headers.get(b"authorization"), Some(&b"Basic dXNlcjpwYXNz"[..]));

    let mut req = Request::new(Method::Get, "https://example.com/".to_string());
    BasicAuth::new("user".into(), None).apply(&mut req);
    assert_eq!(req.headers.get(b"authorization"), Some(&b"Basic dXNlcjo="[..]));

    let mut req = Request::new(Method::Get, "https://example.com/".to_string());
    req.headers.append(b"authorization", b"Token t");
    BasicAuth::new("user".into(), None).apply(&mut req);
    assert_eq!(req.headers.get(b"authorization"), Some(&b"Token t"[..]));
}
