//! Base64 through the `base64` crate.
use vstd::prelude::*;
use base64::Engine;

verus! {

/// The padded standard-alphabet Base64 text of some bytes.
pub uninterp spec fn base64_text(b: Seq<u8>) -> Seq<char>;

/// The bytes that standard Base64 text decodes to, or `None` where it is not
/// padded standard Base64.
pub uninterp spec fn base64_decoded(text: Seq<u8>) -> Option<Seq<u8>>;

/// Relies on the `base64` crate's `STANDARD` engine `encode`: padded Base64
/// with the standard alphabet.
#[verifier::external_body]
pub(crate) fn base64_encode(b: &[u8]) -> (r: String)
    ensures
        r@ == base64_text(b@),
{
    base64::engine::general_purpose::STANDARD.encode(b)
}

/// Relies on the `base64` crate's `STANDARD` engine `decode`.
#[verifier::external_body]
pub(crate) fn base64_decode(text: &[u8]) -> (r: Option<Vec<u8>>)
    ensures
        match r {
            Some(v) => base64_decoded(text@) == Some(v@),
            None => base64_decoded(text@) is None,
        },
{
    base64::engine::general_purpose::STANDARD.decode(text).ok()
}

} // verus!
