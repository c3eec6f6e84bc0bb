//! Unpadded URL-safe base64, as the `base64` crate implements it.
use vstd::prelude::*;

use base64::Engine as _;

verus! {

#[verifier::external_type_specification]
#[verifier::external_body]
pub struct ExDecodeError(base64::DecodeError);

/// What `URL_SAFE_NO_PAD.decode` gives for `s` (`None` when it rejects it).
pub uninterp spec fn base64url_decoded(s: Seq<char>) -> Option<Seq<u8>>;

/// What `URL_SAFE_NO_PAD.encode` gives for `b`.
pub uninterp spec fn base64url_encoded(b: Seq<u8>) -> Seq<char>;

/// Length of the unpadded base64 encoding of `n` bytes: four characters per
/// three bytes, and two or three for a last one or two.
pub open spec fn unpadded_encoded_len(n: nat) -> nat {
    4 * (n / 3) + if n % 3 == 0 {
        0
    } else {
        n % 3 + 1
    }
}

/// A character of the URL-safe base64 alphabet.
pub open spec fn is_base64url_char(c: char) -> bool {
    ('A' <= c && c <= 'Z') || ('a' <= c && c <= 'z') || ('0' <= c && c <= '9') || c == '-' || c
        == '_'
}

/// `base64::engine::general_purpose::URL_SAFE_NO_PAD.decode`. The decoder is not
/// restated: its result is named [`base64url_decoded`] of the input.
#[verifier::external_body]
pub(crate) fn base64url_decode(s: &str) -> (r: Result<Vec<u8>, base64::DecodeError>)
    ensures
        r matches Ok(v) ==> base64url_decoded(s@) == Some(v@),
        r is Err ==> base64url_decoded(s@) is None,
{
    base64::engine::general_purpose::URL_SAFE_NO_PAD.decode(s)
}

/// `base64::engine::general_purpose::URL_SAFE_NO_PAD.encode`. Its result is named
/// [`base64url_encoded`] of the input; as the crate documents, it is written in the
/// URL-safe alphabet without padding (so of the length `encoded_len` gives for no
/// padding), and decoding it gives the input back.
#[verifier::external_body]
pub(crate) fn base64url_encode(b: &[u8]) -> (r: String)
    ensures
        r@ == base64url_encoded(b@),
        r@.len() == unpadded_encoded_len(b@.len()),
        forall|i: int| 0 <= i < r@.len() ==> is_base64url_char(#[trigger] r@[i]),
        base64url_decoded(r@) == Some(b@),
{
    base64::engine::general_purpose::URL_SAFE_NO_PAD.encode(b)
}

} // verus!
