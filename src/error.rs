//! One error type for every failure of a request, with its kind and the
//! HTTP status that stands for it.
use vstd::prelude::*;
use crate::oauth2::OAuth2Error;
use crate::redirect::FollowRedirectError;

verus! {

broadcast use vstd::string::group_string_axioms;

/// The broad class of an [`Error`].
#[derive(Clone, Copy, Debug, PartialEq, Eq, Hash, Structural)]
pub enum ErrorKind {
    Http,
    Transport,
    Tls,
    Timeout,
    Redirect,
    Request,
    BodyParse,
    Cookie,
    OAuth2,
    Download,
    WebSocket,
    Io,
    Other,
}

impl ErrorKind {
    /// The lowercase name of the kind.
    pub fn as_str(&self) -> (r: &'static str)
        ensures
            r@ == match self {
                ErrorKind::Http => "http"@,
                ErrorKind::Transport => "transport"@,
                ErrorKind::Tls => "tls"@,
                ErrorKind::Timeout => "timeout"@,
                ErrorKind::Redirect => "redirect"@,
                ErrorKind::Request => "request"@,
                ErrorKind::BodyParse => "body_parse"@,
                ErrorKind::Cookie => "cookie"@,
                ErrorKind::OAuth2 => "oauth2"@,
                ErrorKind::Download => "download"@,
                ErrorKind::WebSocket => "websocket"@,
                ErrorKind::Io => "io"@,
                ErrorKind::Other => "other"@,
            },
    {
        match self {
            ErrorKind::Http => "http",
            ErrorKind::Transport => "transport",
            ErrorKind::Tls => "tls",
            ErrorKind::Timeout => "timeout",
            ErrorKind::Redirect => "redirect",
            ErrorKind::Request => "request",
            ErrorKind::BodyParse => "body_parse",
            ErrorKind::Cookie => "cookie",
            ErrorKind::OAuth2 => "oauth2",
            ErrorKind::Download => "download",
            ErrorKind::WebSocket => "websocket",
            ErrorKind::Io => "io",
            ErrorKind::Other => "other",
        }
    }
}

/// Failures of the OAuth2 flow.
#[derive(Debug)]
pub enum OAuth2ErrorKind {
    TokenFetchFailed(String),
    TokenEndpointError { status: u16, message: String },
    InvalidTokenResponse(String),
}

/// Failures of the cookie store.
#[derive(Debug)]
pub enum CookieErrorKind {
    LoadFailed(String),
    ParseFailed(String),
    PersistFailed(String),
    InvalidHeader,
}

/// Failures of a websocket connection.
#[derive(Debug)]
pub enum WebSocketErrorKind {
    EncodeFailed(String),
    UnsupportedScheme(String),
    ConnectionFailed(String),
}

/// Failures of a download.
#[derive(Debug)]
pub enum DownloadErrorKind {
    UpstreamError(u16),
    FileSystem(String),
    BodyRead(String),
}

/// Every way a request can fail.
#[derive(Debug)]
pub enum Error {
    /// The server answered with an error status.
    Http { status: u16, message: String, body_text: Option<String> },
    Transport(String),
    Tls(String),
    Timeout,
    TooManyRedirects { max: u32 },
    InvalidRedirectLocation,
    InvalidUri(String),
    InvalidRequest(String),
    BodyParse(String),
    Cookie(CookieErrorKind),
    OAuth2(OAuth2ErrorKind),
    Download(DownloadErrorKind),
    WebSocket(WebSocketErrorKind),
    Io(String),
    Other(String),
}

pub open spec fn kind_of(e: Error) -> ErrorKind {
    match e {
        Error::Http { .. } => ErrorKind::Http,
        Error::Transport(_) => ErrorKind::Transport,
        Error::Tls(_) => ErrorKind::Tls,
        Error::Timeout => ErrorKind::Timeout,
        Error::TooManyRedirects { .. } | Error::InvalidRedirectLocation => ErrorKind::Redirect,
        Error::InvalidUri(_) | Error::InvalidRequest(_) => ErrorKind::Request,
        Error::BodyParse(_) => ErrorKind::BodyParse,
        Error::Cookie(_) => ErrorKind::Cookie,
        Error::OAuth2(_) => ErrorKind::OAuth2,
        Error::Download(_) => ErrorKind::Download,
        Error::WebSocket(_) => ErrorKind::WebSocket,
        Error::Io(_) => ErrorKind::Io,
        Error::Other(_) => ErrorKind::Other,
    }
}

/// The status that stands for an error: 504 for a timeout, 400 for a bad
/// redirect location, the upstream status where there is one, else 500.
pub open spec fn status_of(e: Error) -> u16 {
    match e {
        Error::Timeout => 504,
        Error::InvalidRedirectLocation => 400,
        Error::Http { status, .. } => status,
        Error::OAuth2(OAuth2ErrorKind::TokenEndpointError { status, .. }) => status,
        Error::Download(DownloadErrorKind::UpstreamError(status)) => status,
        _ => 500,
    }
}

impl Error {
    pub fn is_network_error(&self) -> (r: bool)
        ensures
            r == (*self matches Error::Transport(_) || *self matches Error::Tls(_)),
    {
        matches!(self, Error::Transport(_) | Error::Tls(_))
    }

    pub fn is_timeout(&self) -> (r: bool)
        ensures
            r == (*self matches Error::Timeout),
    {
        matches!(self, Error::Timeout)
    }

    /// An HTTP error with a 4xx status.
    pub fn is_client_error(&self) -> (r: bool)
        ensures
            r == (*self matches Error::Http { status, .. } && 400 <= status < 500),
    {
        match self {
            Error::Http { status, .. } => 400 <= *status && *status < 500,
            _ => false,
        }
    }

    /// An HTTP error with a 5xx status.
    pub fn is_server_error(&self) -> (r: bool)
        ensures
            r == (*self matches Error::Http { status, .. } && 500 <= status < 600),
    {
        match self {
            Error::Http { status, .. } => 500 <= *status && *status < 600,
            _ => false,
        }
    }

    pub fn is_redirect_error(&self) -> (r: bool)
        ensures
            r == (kind_of(*self) == ErrorKind::Redirect),
    {
        matches!(self, Error::TooManyRedirects { .. } | Error::InvalidRedirectLocation)
    }

    pub fn is_request_error(&self) -> (r: bool)
        ensures
            r == (kind_of(*self) == ErrorKind::Request),
    {
        matches!(self, Error::InvalidRequest(_) | Error::InvalidUri(_))
    }

    /// The body text of an HTTP error, where it was read.
    pub fn response_body(&self) -> (r: Option<&String>)
        ensures
            match *self {
                Error::Http { body_text: Some(t), .. } => r matches Some(s) && s@ == t@,
                _ => r is None,
            },
    {
        match self {
            Error::Http { body_text: Some(t), .. } => Some(t),
            _ => None,
        }
    }

    pub fn kind(&self) -> (r: ErrorKind)
        ensures
            r == kind_of(*self),
    {
        match self {
            Error::Http { .. } => ErrorKind::Http,
            Error::Transport(_) => ErrorKind::Transport,
            Error::Tls(_) => ErrorKind::Tls,
            Error::Timeout => ErrorKind::Timeout,
            Error::TooManyRedirects { .. } | Error::InvalidRedirectLocation => ErrorKind::Redirect,
            Error::InvalidUri(_) | Error::InvalidRequest(_) => ErrorKind::Request,
            Error::BodyParse(_) => ErrorKind::BodyParse,
            Error::Cookie(_) => ErrorKind::Cookie,
            Error::OAuth2(_) => ErrorKind::OAuth2,
            Error::Download(_) => ErrorKind::Download,
            Error::WebSocket(_) => ErrorKind::WebSocket,
            Error::Io(_) => ErrorKind::Io,
            Error::Other(_) => ErrorKind::Other,
        }
    }

    pub fn status(&self) -> (r: u16)
        ensures
            r == status_of(*self),
    {
        match self {
            Error::Timeout => 504,
            Error::InvalidRedirectLocation => 400,
            Error::Http { status, .. } => *status,
            Error::OAuth2(OAuth2ErrorKind::TokenEndpointError { status, .. }) => *status,
            Error::Download(DownloadErrorKind::UpstreamError(status)) => *status,
            _ => 500,
        }
    }

    /// The error that a failed redirect run becomes; `max` is the limit that was exceeded.
    pub fn from_redirect(e: FollowRedirectError, max: u32) -> (r: Error)
        ensures
            (r matches Error::InvalidUri(_)) <==> e == FollowRedirectError::InvalidUrl,
            (r matches Error::TooManyRedirects { .. }) <==> e == FollowRedirectError::TooManyRedirects,
            r matches Error::TooManyRedirects { max: m } ==> m == max,
            (r matches Error::InvalidRedirectLocation) <==> (e
                == FollowRedirectError::MissingLocationHeader || e
                == FollowRedirectError::InvalidLocationHeader),
            (r matches Error::InvalidRequest(_)) <==> e == FollowRedirectError::InvalidRedirectUri,
    {
        match e {
            FollowRedirectError::InvalidUrl => Error::InvalidUri("Invalid redirect URL".to_owned()),
            FollowRedirectError::TooManyRedirects => Error::TooManyRedirects { max },
            FollowRedirectError::MissingLocationHeader | FollowRedirectError::InvalidLocationHeader => {
                Error::InvalidRedirectLocation
            },
            FollowRedirectError::InvalidRedirectUri => Error::InvalidRequest(
                "invalid redirect URI".to_owned(),
            ),
        }
    }

    /// The error that a failed token fetch becomes.
    pub fn from_oauth2(e: OAuth2Error) -> (r: Error)
        ensures
            match e {
                OAuth2Error::Upstream { status, message } => r matches Error::OAuth2(
                    OAuth2ErrorKind::TokenEndpointError { status: s, message: m },
                ) && s == status && m@ == message@,
                OAuth2Error::InvalidResponse => r matches Error::OAuth2(
                    OAuth2ErrorKind::InvalidTokenResponse(_),
                ),
            },
    {
        match e {
            OAuth2Error::Upstream { status, message } => Error::OAuth2(
                OAuth2ErrorKind::TokenEndpointError { status, message },
            ),
            OAuth2Error::InvalidResponse => Error::OAuth2(
                OAuth2ErrorKind::InvalidTokenResponse("token response is not valid".to_owned()),
            ),
        }
    }
}

} // verus!
