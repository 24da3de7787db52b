//! Middlewares that attach fixed credentials to requests that carry none.
use vstd::prelude::*;
use crate::bytes::{append_bytes, ascii_of, literal, string_bytes, utf8};
use crate::base64_codec::{base64_encode, base64_text};
use crate::headers::{has_name, with_header};
use crate::message::Request;

verus! {

broadcast use vstd::string::group_string_axioms;

pub open spec fn authorization_name() -> Seq<u8> {
    ascii_of("authorization"@)
}

/// The request after attaching `value` as `Authorization`, unless it has one.
pub open spec fn with_authorization(before: crate::message::RequestView, value: Seq<u8>) -> crate::message::RequestView {
    if has_name(before.headers, authorization_name()) {
        before
    } else {
        crate::message::RequestView {
            headers: with_header(before.headers, authorization_name(), value),
            ..before
        }
    }
}

/// Adds `Authorization: Bearer <token>` to requests.
pub struct BearerAuth {
    token: String,
}

impl BearerAuth {
    pub fn new(token: String) -> (r: BearerAuth)
        ensures
            r.token() == token@,
    {
        BearerAuth { token }
    }

    pub closed spec fn token(&self) -> Seq<char> {
        self.token@
    }

    /// Attaches the token unless the request already has an `Authorization` header.
    pub fn apply(&self, request: &mut Request)
        ensures
            final(request)@ == with_authorization(
                old(request)@,
                ascii_of("Bearer "@) + utf8(self.token()),
            ),
    {
        proof {
            reveal_strlit("authorization");
            reveal_strlit("Bearer ");
        }
        let name = literal("authorization");
        if !request.headers.contains_key(name.as_slice()) {
            let mut value = literal("Bearer ");
            let t = string_bytes(&self.token);
            append_bytes(&mut value, t.as_slice());
            request.headers.insert(name.as_slice(), value.as_slice());
        }
    }
}

/// Adds `Authorization: Basic <base64 of user:password>` to requests.
pub struct BasicAuth {
    username: String,
    password: Option<String>,
}

/// The bytes that Basic authentication encodes: `user:password`, or `user:`
/// without a password.
pub open spec fn credentials(user: Seq<char>, password: Option<Seq<char>>) -> Seq<u8> {
    match password {
        Some(p) => utf8(user) + ascii_of(":"@) + utf8(p),
        None => utf8(user) + ascii_of(":"@),
    }
}

impl BasicAuth {
    pub fn new(username: String, password: Option<String>) -> (r: BasicAuth)
        ensures
            r.username() == username@,
            r.password() == match password {
                Some(p) => Some(p@),
                None => None::<Seq<char>>,
            },
    {
        BasicAuth { username, password }
    }

    pub closed spec fn username(&self) -> Seq<char> {
        self.username@
    }

    pub closed spec fn password(&self) -> Option<Seq<char>> {
        match self.password {
            Some(p) => Some(p@),
            None => None,
        }
    }

    /// Attaches the credentials unless the request already has an `Authorization` header.
    pub fn apply(&self, request: &mut Request)
        ensures
            final(request)@ == with_authorization(
                old(request)@,
                ascii_of("Basic "@) + utf8(
                    base64_text(credentials(self.username(), self.password())),
                ),
            ),
    {
        proof {
            reveal_strlit("authorization");
            reveal_strlit("Basic ");
            reveal_strlit(":");
        }
        let name = literal("authorization");
        if !request.headers.contains_key(name.as_slice()) {
            let mut creds = string_bytes(&self.username);
            append_bytes(&mut creds, literal(":").as_slice());
            if let Some(p) = &self.password {
                append_bytes(&mut creds, string_bytes(p).as_slice());
            }
            let encoded = base64_encode(creds.as_slice());
            let mut value = literal("Basic ");
            append_bytes(&mut value, string_bytes(&encoded).as_slice());
            request.headers.insert(name.as_slice(), value.as_slice());
        }
    }
}

} // verus!
