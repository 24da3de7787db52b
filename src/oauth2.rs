//! OAuth2 client-credentials tokens: the token request, reading the token
//! endpoint's answer, expiry with a safety window, and attaching the token.
use vstd::prelude::*;
use crate::bytes::{ascii_of, literal, opt_chars, string_bytes};
use crate::headers::{has_name, with_header, Headers};
use crate::message::{Method, Request};

verus! {

broadcast use vstd::string::group_string_axioms;

/// The text that `url::form_urlencoded::Serializer` makes of name/value pairs.
pub uninterp spec fn form_urlencoded(pairs: Seq<(Seq<char>, Seq<char>)>) -> Seq<char>;

pub open spec fn pairs_view(v: Seq<(String, String)>) -> Seq<(Seq<char>, Seq<char>)> {
    Seq::new(v.len(), |i: int| (v[i].0@, v[i].1@))
}

/// Relies on `url::form_urlencoded::Serializer`: the pairs encoded as
/// `application/x-www-form-urlencoded`, joined by `&`, in order.
#[verifier::external_body]
fn encode_form(pairs: &Vec<(String, String)>) -> (r: String)
    ensures
        r@ == form_urlencoded(pairs_view(pairs@)),
{
    let mut serializer = url::form_urlencoded::Serializer::new(String::new());
    serializer.extend_pairs(pairs.iter().map(|(k, v)| (k.as_str(), v.as_str())));
    serializer.finish()
}

/// The lifetime assumed when the token endpoint gives none, in seconds.
pub const DEFAULT_TOKEN_LIFETIME_SECS: u64 = 3600;

/// The default safety window, in milliseconds.
pub const DEFAULT_SAFETY_WINDOW_MS: u64 = 30000;

/// When a token fetched at `now` stops being used, in milliseconds:
/// `now + lifetime - min(window, lifetime / 2)`, held at the largest instant
/// that fits.
pub open spec fn token_expiry(now: u64, expires_in: Option<u64>, window_ms: u64) -> u64 {
    let secs = match expires_in {
        Some(s) => s,
        None => DEFAULT_TOKEN_LIFETIME_SECS,
    };
    let lifetime = secs * 1000;
    let half = secs * 500;
    let safety = if window_ms < half {
        window_ms as int
    } else {
        half
    };
    let at = now + lifetime - safety;
    if at <= u64::MAX {
        at as u64
    } else {
        u64::MAX
    }
}

pub fn compute_expiry(now: u64, expires_in: Option<u64>, window_ms: u64) -> (r: u64)
    ensures
        r == token_expiry(now, expires_in, window_ms),
{
    let secs: u64 = match expires_in {
        Some(s) => s,
        None => DEFAULT_TOKEN_LIFETIME_SECS,
    };
    let lifetime = (secs as u128) * 1000;
    let half = (secs as u128) * 500;
    let safety = if (window_ms as u128) < half {
        window_ms as u128
    } else {
        half
    };
    let at = (now as u128) + lifetime - safety;
    if at <= u64::MAX as u128 {
        at as u64
    } else {
        u64::MAX
    }
}

/// What the token endpoint answered, as read from its JSON body.
pub struct TokenResponse {
    pub access_token: String,
    pub token_type: Option<String>,
    pub expires_in: Option<u64>,
}

/// A cached access token and the instant, in milliseconds, from which it is no longer used.
pub struct TokenInfo {
    pub access_token: String,
    pub expires_at: u64,
}

impl TokenInfo {
    /// Whether the token may still be used at `now`.
    pub fn is_valid(&self, now: u64) -> (r: bool)
        ensures
            r == (now < self.expires_at),
    {
        now < self.expires_at
    }
}

/// Why no token could be had.
#[derive(Debug)]
pub enum OAuth2Error {
    /// The token endpoint answered with a non-success status; its body text is kept.
    Upstream { status: u16, message: String },
    /// The token endpoint's success answer was not a token response.
    InvalidResponse,
}

impl OAuth2Error {
    /// The HTTP status that stands for this error: the token endpoint's own, or 502.
    pub fn status(&self) -> (r: u16)
        ensures
            r == match self {
                OAuth2Error::Upstream { status, .. } => *status,
                OAuth2Error::InvalidResponse => 502u16,
            },
    {
        match self {
            OAuth2Error::Upstream { status, .. } => *status,
            OAuth2Error::InvalidResponse => 502,
        }
    }
}

/// The `Authorization` value that carries a bearer token.
pub open spec fn bearer_value(token: Seq<char>) -> Seq<u8> {
    ascii_of("Bearer "@) + vstd::utf8::encode_utf8(token)
}

/// The token that a check at `now` finds: the cached one, while `now` is
/// before its expiry.
pub open spec fn usable_token(current: Option<(Seq<char>, u64)>, now: u64) -> Option<Seq<char>> {
    match current {
        Some((t, at)) => if now < at {
            Some(t)
        } else {
            None
        },
        None => None,
    }
}

/// Client-credentials configuration and the token slot it fills.
pub struct OAuth2ClientCredentials {
    token_url: String,
    client_id: String,
    client_secret: String,
    scope: Option<String>,
    audience: Option<String>,
    safety_window_ms: u64,
    token: Option<TokenInfo>,
}

/// The form fields of a token request, in order.
pub open spec fn token_form(
    id: Seq<char>,
    secret: Seq<char>,
    scope: Option<Seq<char>>,
    audience: Option<Seq<char>>,
) -> Seq<(Seq<char>, Seq<char>)> {
    let base = seq![
        ("grant_type"@, "client_credentials"@),
        ("client_id"@, id),
        ("client_secret"@, secret),
    ];
    let with_scope = match scope {
        Some(s) => base.push(("scope"@, s)),
        None => base,
    };
    match audience {
        Some(a) => with_scope.push(("audience"@, a)),
        None => with_scope,
    }
}

impl OAuth2ClientCredentials {
    /// A client for `token_url` with a 30 s safety window and no token yet.
    pub fn new(token_url: String, client_id: String, client_secret: String) -> (r:
        OAuth2ClientCredentials)
        ensures
            r.token_url() == token_url@,
            r.client_id() == client_id@,
            r.client_secret() == client_secret@,
            r.scope() is None,
            r.audience() is None,
            r.safety_window_ms() == DEFAULT_SAFETY_WINDOW_MS,
            r.current_token() is None,
    {
        OAuth2ClientCredentials {
            token_url,
            client_id,
            client_secret,
            scope: None,
            audience: None,
            safety_window_ms: DEFAULT_SAFETY_WINDOW_MS,
            token: None,
        }
    }

    pub closed spec fn token_url(&self) -> Seq<char> {
        self.token_url@
    }

    pub closed spec fn client_id(&self) -> Seq<char> {
        self.client_id@
    }

    pub closed spec fn client_secret(&self) -> Seq<char> {
        self.client_secret@
    }

    pub closed spec fn scope(&self) -> Option<Seq<char>> {
        opt_chars(self.scope)
    }

    pub closed spec fn audience(&self) -> Option<Seq<char>> {
        opt_chars(self.audience)
    }

    pub closed spec fn safety_window_ms(&self) -> u64 {
        self.safety_window_ms
    }

    /// The cached token and its expiry, if any.
    pub closed spec fn current_token(&self) -> Option<(Seq<char>, u64)> {
        match self.token {
            Some(t) => Some((t.access_token@, t.expires_at)),
            None => None,
        }
    }

    /// Requests the given scopes.
    pub fn with_scope(self, scope: String) -> (r: OAuth2ClientCredentials)
        ensures
            r.scope() == Some(scope@),
            r.token_url() == self.token_url(),
            r.client_id() == self.client_id(),
            r.client_secret() == self.client_secret(),
            r.audience() == self.audience(),
            r.safety_window_ms() == self.safety_window_ms(),
            r.current_token() == self.current_token(),
    {
        OAuth2ClientCredentials { scope: Some(scope), ..self }
    }

    /// Sends an `audience` parameter.
    pub fn with_audience(self, audience: String) -> (r: OAuth2ClientCredentials)
        ensures
            r.audience() == Some(audience@),
            r.token_url() == self.token_url(),
            r.client_id() == self.client_id(),
            r.client_secret() == self.client_secret(),
            r.scope() == self.scope(),
            r.safety_window_ms() == self.safety_window_ms(),
            r.current_token() == self.current_token(),
    {
        OAuth2ClientCredentials { audience: Some(audience), ..self }
    }

    /// Sets the safety window, in milliseconds.
    pub fn with_safety_window(self, window_ms: u64) -> (r: OAuth2ClientCredentials)
        ensures
            r.safety_window_ms() == window_ms,
            r.token_url() == self.token_url(),
            r.client_id() == self.client_id(),
            r.client_secret() == self.client_secret(),
            r.scope() == self.scope(),
            r.audience() == self.audience(),
            r.current_token() == self.current_token(),
    {
        OAuth2ClientCredentials { safety_window_ms: window_ms, ..self }
    }

    /// The cached token, where there is one that is still valid at `now`.
    pub fn cached_token(&self, now: u64) -> (r: Option<String>)
        ensures
            match r {
                Some(s) => usable_token(self.current_token(), now) == Some(s@),
                None => usable_token(self.current_token(), now) is None,
            },
    {
        match &self.token {
            Some(info) => if info.is_valid(now) {
                Some(info.access_token.clone())
            } else {
                None
            },
            None => None,
        }
    }

    /// The form body of a token request.
    pub fn build_body(&self) -> (r: String)
        ensures
            r@ == form_urlencoded(
                token_form(self.client_id(), self.client_secret(), self.scope(), self.audience()),
            ),
    {
        let mut pairs: Vec<(String, String)> = Vec::new();
        pairs.push(("grant_type".to_owned(), "client_credentials".to_owned()));
        pairs.push(("client_id".to_owned(), self.client_id.clone()));
        pairs.push(("client_secret".to_owned(), self.client_secret.clone()));
        if let Some(scope) = &self.scope {
            pairs.push(("scope".to_owned(), scope.clone()));
        }
        if let Some(audience) = &self.audience {
            pairs.push(("audience".to_owned(), audience.clone()));
        }
        assert(pairs_view(pairs@) =~= token_form(
            self.client_id(),
            self.client_secret(),
            self.scope(),
            self.audience(),
        ));
        encode_form(&pairs)
    }

    /// The request to send to the token endpoint: a form-encoded `POST`.
    pub fn token_request(&self) -> (r: Request)
        ensures
            r.method == Method::Post,
            r.uri@ == self.token_url(),
            r.headers@ == with_header(
                Seq::empty(),
                ascii_of("content-type"@),
                ascii_of("application/x-www-form-urlencoded"@),
            ),
            r.body@ == vstd::utf8::encode_utf8(
                form_urlencoded(
                    token_form(
                        self.client_id(),
                        self.client_secret(),
                        self.scope(),
                        self.audience(),
                    ),
                ),
            ),
    {
        proof {
            reveal_strlit("content-type");
            reveal_strlit("application/x-www-form-urlencoded");
        }
        let body = self.build_body();
        let mut headers = Headers::new();
        headers.insert(
            literal("content-type").as_slice(),
            literal("application/x-www-form-urlencoded").as_slice(),
        );
        Request { method: Method::Post, uri: self.token_url.clone(), headers, body: string_bytes(&body) }
    }

    /// Reads the token endpoint's answer at `now`: a non-success status is an
    /// upstream error carrying the body text, a success without a token
    /// response is an invalid response, and a token is cached with its expiry.
    pub fn accept_token_response(
        &mut self,
        status: u16,
        body_text: String,
        parsed: Option<TokenResponse>,
        now: u64,
    ) -> (r: Result<String, OAuth2Error>)
        ensures
            final(self).token_url() == old(self).token_url(),
            final(self).client_id() == old(self).client_id(),
            final(self).client_secret() == old(self).client_secret(),
            final(self).scope() == old(self).scope(),
            final(self).audience() == old(self).audience(),
            final(self).safety_window_ms() == old(self).safety_window_ms(),
            !(200 <= status < 300) ==> (r matches Err(OAuth2Error::Upstream { status: s, message: m })
                && s == status && m@ == body_text@ && final(self).current_token() == old(self).current_token()),
            200 <= status < 300 && parsed is None ==> (r matches Err(OAuth2Error::InvalidResponse)
                && final(self).current_token() == old(self).current_token()),
            200 <= status < 300 && parsed is Some ==> ({
                let t = parsed.unwrap();
                let at = token_expiry(now, t.expires_in, old(self).safety_window_ms());
                &&& final(self).current_token() == Some((t.access_token@, at))
                &&& r matches Ok(s) && s@ == t.access_token@
            }),
    {
        if !(200 <= status && status < 300) {
            return Err(OAuth2Error::Upstream { status, message: body_text });
        }
        match parsed {
            None => Err(OAuth2Error::InvalidResponse),
            Some(t) => {
                let expires_at = compute_expiry(now, t.expires_in, self.safety_window_ms);
                let token = t.access_token.clone();
                self.token = Some(TokenInfo { access_token: t.access_token, expires_at });
                Ok(token)
            },
        }
    }

    /// Attaches `Authorization: Bearer <token>` unless the request already
    /// carries an `Authorization` header.
    pub fn authorize(&self, request: &mut Request, token: &String)
        ensures
            final(request).method == old(request).method,
            final(request).uri@ == old(request).uri@,
            final(request).body@ == old(request).body@,
            has_name(old(request).headers@, ascii_of("authorization"@)) ==> final(request).headers@
                == old(request).headers@,
            !has_name(old(request).headers@, ascii_of("authorization"@)) ==> final(request).headers@ == with_header(
                old(request).headers@,
                ascii_of("authorization"@),
                bearer_value(token@),
            ),
    {
        proof {
            reveal_strlit("authorization");
            reveal_strlit("Bearer ");
        }
        let name = literal("authorization");
        if !request.headers.contains_key(name.as_slice()) {
            let mut value = literal("Bearer ");
            let t = string_bytes(token);
            crate::bytes::append_bytes(&mut value, t.as_slice());
            request.headers.insert(name.as_slice(), value.as_slice());
        }
    }
}

/// A token read at `now` stays in use until strictly before the lifetime
/// runs out: with the default window a token that lives 3600 s is refreshed
/// 30 s before the 3600 s mark.
pub proof fn lemma_expiry_before_lifetime(now: u64, secs: u64, window_ms: u64)
    requires
        secs >= 1,
        window_ms >= 1,
        now + secs * 1000 <= u64::MAX,
    ensures
        token_expiry(now, Some(secs), window_ms) < now + secs * 1000,
        token_expiry(now, Some(secs), window_ms) >= now + secs * 500,
        secs == DEFAULT_TOKEN_LIFETIME_SECS && window_ms == DEFAULT_SAFETY_WINDOW_MS ==> token_expiry(
            now,
            Some(secs),
            window_ms,
        ) == now + 3570000,
{
}

/// After one refresh at `fetched_at`, every check made before the token's
/// expiry finds that same token: callers that waited on the refresh all get
/// the token it fetched, and none of them fetches another.
pub proof fn lemma_refreshed_token_shared(
    token: Seq<char>,
    fetched_at: u64,
    expires_in: Option<u64>,
    window_ms: u64,
    first: u64,
    second: u64,
)
    requires
        first < token_expiry(fetched_at, expires_in, window_ms),
        second < token_expiry(fetched_at, expires_in, window_ms),
    ensures
        usable_token(Some((token, token_expiry(fetched_at, expires_in, window_ms))), first) == Some(
            token,
        ),
        usable_token(Some((token, token_expiry(fetched_at, expires_in, window_ms))), second)
            == usable_token(Some((token, token_expiry(fetched_at, expires_in, window_ms))), first),
{
}

} // verus!
