//! Requests and responses as plain values.
use vstd::prelude::*;
use crate::headers::{HeaderSeq, Headers};

verus! {

/// The request methods that the middlewares tell apart.
#[derive(Clone, Copy, Debug, PartialEq, Eq, Structural)]
pub enum Method {
    Get,
    Head,
    Post,
    Put,
    Delete,
    Patch,
    Options,
    Connect,
    Trace,
}

/// Whether a request with this method carries no body.
pub open spec fn is_bodyless(m: Method) -> bool {
    m == Method::Get || m == Method::Head
}

/// A request whose body has been read into memory.
pub struct Request {
    pub method: Method,
    pub uri: String,
    pub headers: Headers,
    pub body: Vec<u8>,
}

/// A response whose body has been read into memory.
pub struct Response {
    pub status: u16,
    pub headers: Headers,
    pub body: Vec<u8>,
}

/// A request as plain values.
pub struct RequestView {
    pub method: Method,
    pub uri: Seq<char>,
    pub headers: HeaderSeq,
    pub body: Seq<u8>,
}

/// A response as plain values.
pub struct ResponseView {
    pub status: u16,
    pub headers: HeaderSeq,
    pub body: Seq<u8>,
}

impl View for Request {
    type V = RequestView;

    open spec fn view(&self) -> RequestView {
        RequestView {
            method: self.method,
            uri: self.uri@,
            headers: self.headers@,
            body: self.body@,
        }
    }
}

impl View for Response {
    type V = ResponseView;

    open spec fn view(&self) -> ResponseView {
        ResponseView { status: self.status, headers: self.headers@, body: self.body@ }
    }
}

impl Request {
    /// A request without headers or body.
    pub fn new(method: Method, uri: String) -> (r: Request)
        ensures
            r.method == method,
            r.uri@ == uri@,
            r.headers@.len() == 0,
            r.body@.len() == 0,
    {
        Request { method, uri, headers: Headers::new(), body: Vec::new() }
    }
}

impl Response {
    /// A response with the given status, no headers and no body.
    pub fn new(status: u16) -> (r: Response)
        ensures
            r.status == status,
            r.headers@.len() == 0,
            r.body@.len() == 0,
    {
        Response { status, headers: Headers::new(), body: Vec::new() }
    }
}

} // verus!
