//! Base64, the form in which values travel over REST.

use base64::Engine;
use vstd::prelude::*;

verus! {

/// The standard, padded base64 text of a byte string, as the `base64`
/// crate's `STANDARD` engine writes it.
pub uninterp spec fn base64_text(bytes: Seq<u8>) -> Seq<char>;

/// The bytes that a base64 text stands for under the `STANDARD` engine, or
/// `None` where the engine refuses the text.
pub uninterp spec fn base64_value(text: Seq<char>) -> Option<Seq<u8>>;

/// `Engine::encode` of `general_purpose::STANDARD`. Trusted: the text
/// depends on the bytes alone. The call panics where the length of the text
/// would not fit a `usize`; such inputs are excluded.
#[verifier::external_body]
pub(crate) fn base64_encode(bytes: &[u8]) -> (text: String)
    requires
        bytes@.len() < usize::MAX / 2,
    ensures
        text@ == base64_text(bytes@),
{
    base64::engine::general_purpose::STANDARD.encode(bytes)
}

/// `Engine::decode` of `general_purpose::STANDARD`, with its error dropped.
/// Trusted: whether the text is accepted, and the bytes it gives, depend on
/// the text alone.
#[verifier::external_body]
pub(crate) fn base64_decode(text: &str) -> (bytes: Option<Vec<u8>>)
    ensures
        match bytes {
            Some(b) => base64_value(text@) == Some(b@),
            None => base64_value(text@) is None,
        },
{
    match base64::engine::general_purpose::STANDARD.decode(text) {
        Ok(b) => Some(b),
        Err(_) => None,
    }
}

} // verus!
