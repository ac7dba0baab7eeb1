//! Base32 and Base64 through the `base32` and `base64` crates.
use base64::Engine;
use vstd::prelude::*;

verus! {

/// The RFC 4648 Base32 alphabet (upper case, digits 2 to 7).
pub open spec fn is_base32_char(c: char) -> bool {
    ('A' <= c <= 'Z') || ('2' <= c <= '7')
}

pub open spec fn all_base32(s: Seq<char>) -> bool {
    forall|i: int| 0 <= i < s.len() ==> is_base32_char(#[trigger] s[i])
}

/// The bytes that `base32::decode` (RFC 4648 alphabet, no padding) returns for
/// a text made of Base32 characters.
pub uninterp spec fn base32_decoded(s: Seq<char>) -> Seq<u8>;

/// The text that `base32::encode` (RFC 4648 alphabet, no padding) returns.
pub uninterp spec fn base32_encoded(b: Seq<u8>) -> Seq<char>;

/// The bytes that the standard `base64` engine decodes from its input, or
/// `None` where it refuses the input.
pub uninterp spec fn base64_decoded(b: Seq<u8>) -> Option<Seq<u8>>;

/// `base32::decode` with `Alphabet::Rfc4648 { padding: false }`. As its source
/// shows, it succeeds exactly when every character is one of `A`-`Z`, `2`-`7`
/// (any other character, `=` and lower case included, makes it return `None`);
/// the decoded bytes are named `base32_decoded`.
#[verifier::external_body]
pub(crate) fn base32_decode(s: &str) -> (r: Option<Vec<u8>>)
    ensures
        r is Some <==> all_base32(s@),
        r matches Some(v) ==> v@ == base32_decoded(s@),
{
    base32::decode(base32::Alphabet::Rfc4648 { padding: false }, s)
}

/// `base32::encode` with `Alphabet::Rfc4648 { padding: false }`. As its source
/// shows, every output character is taken from the RFC 4648 alphabet; the text
/// itself is named `base32_encoded`.
#[verifier::external_body]
pub(crate) fn base32_encode(b: &[u8]) -> (r: String)
    ensures
        r@ == base32_encoded(b@),
        all_base32(r@),
{
    base32::encode(base32::Alphabet::Rfc4648 { padding: false }, b)
}

/// `base64::engine::general_purpose::STANDARD.decode`: the decoded bytes, or
/// `None` where the engine reports a decode error (the error itself is dropped).
#[verifier::external_body]
pub(crate) fn base64_decode(b: &[u8]) -> (r: Option<Vec<u8>>)
    ensures
        match r {
            Some(v) => base64_decoded(b@) == Some(v@),
            None => base64_decoded(b@) is None,
        },
{
    base64::engine::general_purpose::STANDARD.decode(b).ok()
}

} // verus!
