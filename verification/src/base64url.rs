//! The base64 alphabet in which identifiers are written: URL-safe, without
//! padding. The encoding itself is the `base64` crate's; this module states what
//! the rest of the library relies on.

use base64::Engine;
use vstd::prelude::*;

verus! {

/// `base64::DecodeError`, the error of `Engine::decode`: it is carried through,
/// and nothing of what it holds is read.
#[verifier::external_type_specification]
#[verifier::external_body]
pub struct ExDecodeError(base64::DecodeError);

/// The text that the URL-safe, unpadded base64 encoding gives for `bytes`.
pub uninterp spec fn base64url_text(bytes: Seq<u8>) -> Seq<char>;

/// The bytes that the URL-safe, unpadded base64 decoding finds in `text`, if it
/// accepts `text`.
pub uninterp spec fn base64url_bytes(text: Seq<char>) -> Option<Seq<u8>>;

/// Whether `c` is one of the 64 symbols of the URL-safe alphabet.
pub open spec fn is_base64url_symbol(c: char) -> bool {
    ||| 'A' <= c <= 'Z'
    ||| 'a' <= c <= 'z'
    ||| '0' <= c <= '9'
    ||| c == '-'
    ||| c == '_'
}

/// The number of symbols that encode `bytes` bytes without padding: four for
/// every three bytes, and two or three for the one or two bytes left over.
pub open spec fn base64url_len(bytes: nat) -> nat {
    bytes / 3 * 4 + if bytes % 3 == 0 {
        0nat
    } else {
        (bytes % 3 + 1) as nat
    }
}

/// Whether the encoding of `bytes` is made of symbols of the alphabet only and
/// decodes to `bytes` again.
pub open spec fn codec_faithful(bytes: Seq<u8>) -> bool {
    let text = base64url_text(bytes);
    &&& base64url_bytes(text) == Some(bytes)
    &&& forall|i: int| 0 <= i < text.len() ==> is_base64url_symbol(#[trigger] text[i])
}

/// `Engine::encode` of `base64::engine::general_purpose::URL_SAFE_NO_PAD`.
///
/// Trusted: the text is the encoding of `bytes`; it has four symbols for every
/// three bytes and two or three for what is left over; it holds only symbols of
/// the URL-safe alphabet (no padding is written); and the same engine decodes it
/// to `bytes` again. The bound on the input keeps the length of the text, four
/// symbols for three bytes, within `usize` on every machine.
#[verifier::external_body]
pub(crate) fn encode_base64url(bytes: &Vec<u8>) -> (text: String)
    requires
        bytes@.len() <= 0x3FFF_FFFF,
    ensures
        text@ == base64url_text(bytes@),
        text@.len() == base64url_len(bytes@.len()),
        forall|i: int| 0 <= i < text@.len() ==> is_base64url_symbol(#[trigger] text@[i]),
        base64url_bytes(text@) == Some(bytes@),
{
    base64::engine::general_purpose::URL_SAFE_NO_PAD.encode(bytes)
}

/// `Engine::decode` of `base64::engine::general_purpose::URL_SAFE_NO_PAD`.
///
/// Trusted: the outcome is a function of the text alone; `Ok` carries the decoded
/// bytes, and `Err` means that the engine rejects the text.
#[verifier::external_body]
pub(crate) fn decode_base64url(text: &str) -> (decoded: Result<Vec<u8>, base64::DecodeError>)
    ensures
        match decoded {
            Ok(bytes) => base64url_bytes(text@) == Some(bytes@),
            Err(_) => base64url_bytes(text@) is None,
        },
{
    base64::engine::general_purpose::URL_SAFE_NO_PAD.decode(text)
}

} // verus!
