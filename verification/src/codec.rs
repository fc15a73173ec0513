//! The calls into the hashing, encoding and randomness crates.
//!
//! Each item here is trusted: Verus believes its contract and does not read
//! its body. Results that take pages to specify (SHA-256, base64) are named
//! by an uninterpreted function of the arguments; callers state their own
//! contracts over those names.

use base64::Engine;
use rand::Rng;
use sha2::Digest;
use vstd::prelude::*;

verus! {

/// The SHA-256 digest of a byte sequence, as computed by the `sha2` crate.
pub uninterp spec fn sha256(data: Seq<u8>) -> Seq<u8>;

/// The padded standard-alphabet base64 text of a byte sequence, as computed
/// by `base64::engine::general_purpose::STANDARD`.
pub uninterp spec fn base64_standard_encode(data: Seq<u8>) -> Seq<char>;

/// The unpadded URL-safe base64 text of a byte sequence, as computed by
/// `base64::engine::general_purpose::URL_SAFE_NO_PAD`.
pub uninterp spec fn base64_url_nopad_encode(data: Seq<u8>) -> Seq<char>;

/// What `base64::engine::general_purpose::STANDARD` decodes from the bytes
/// of a text: the decoded bytes, or the display text of the decode error.
pub uninterp spec fn base64_standard_decode(text: Seq<u8>) -> Result<Seq<u8>, Seq<char>>;

/// The characters of padded standard base64 text: the RFC 4648 standard
/// alphabet and the padding `=`.
pub open spec fn is_standard_base64_char(c: char) -> bool {
    ||| ('A' <= c && c <= 'Z')
    ||| ('a' <= c && c <= 'z')
    ||| ('0' <= c && c <= '9')
    ||| c == '+' || c == '/' || c == '='
}

/// Whether `STANDARD.decode` of the bytes of `text` gives `data`.
pub open spec fn decodes_to(text: Seq<char>, data: Seq<u8>) -> bool {
    base64_standard_decode(vstd::utf8::encode_utf8(text)) == Ok::<Seq<u8>, Seq<char>>(data)
}

/// Calls `sha2::Sha256::new`, `update` and `finalize`: the result is the
/// named digest of `data`, and (by the digest's output type) 32 bytes long.
#[verifier::external_body]
pub(crate) fn sha256_digest(data: &[u8]) -> (digest: Vec<u8>)
    ensures
        digest@ == sha256(data@),
        digest@.len() == 32,
{
    let mut hasher = sha2::Sha256::new();
    hasher.update(data);
    hasher.finalize().to_vec()
}

/// Calls `STANDARD.encode`: the result is the named encoding of `data`;
/// `STANDARD.decode` of its bytes gives `data` back (the round trip the
/// crate's own tests check); it is made of standard-alphabet characters and
/// `=` padding only, four per started group of three bytes (`encoded_len`
/// with padding). The call panics when the encoded length overflows
/// `usize`; any slice no longer than `isize::MAX` is safe, which `requires`
/// states.
#[verifier::external_body]
pub(crate) fn encode_base64_standard(data: &[u8]) -> (text: String)
    requires
        data@.len() <= isize::MAX,
    ensures
        text@ == base64_standard_encode(data@),
        decodes_to(text@, data@),
        text@.len() == 4 * ((data@.len() + 2) / 3),
        forall|i: int| 0 <= i < text@.len() ==> is_standard_base64_char(#[trigger] text@[i]),
{
    base64::engine::general_purpose::STANDARD.encode(data)
}

/// Calls `URL_SAFE_NO_PAD.encode`: the result is the named encoding of
/// `data`. Same length bound as the standard encoder.
#[verifier::external_body]
pub(crate) fn encode_base64_url_nopad(data: &[u8]) -> (text: String)
    requires
        data@.len() <= isize::MAX,
    ensures
        text@ == base64_url_nopad_encode(data@),
{
    base64::engine::general_purpose::URL_SAFE_NO_PAD.encode(data)
}

/// Calls `STANDARD.decode`: the bytes it decodes, or the display text of
/// its `DecodeError`, both as named by `base64_standard_decode`.
#[verifier::external_body]
pub(crate) fn decode_base64_standard(text: &[u8]) -> (decoded: Result<Vec<u8>, String>)
    ensures
        match decoded {
            Ok(bytes) => base64_standard_decode(text@) == Ok::<Seq<u8>, Seq<char>>(bytes@),
            Err(msg) => base64_standard_decode(text@) == Err::<Seq<u8>, Seq<char>>(msg@),
        },
{
    match base64::engine::general_purpose::STANDARD.decode(text) {
        Ok(bytes) => Ok(bytes),
        Err(e) => Err(e.to_string()),
    }
}

/// Calls `rand::thread_rng().gen_range(0..bound)`: some index below
/// `bound`, which must be positive (the call panics on an empty range).
/// Which index comes back is left open. The thread-local generator also
/// panics if the operating system cannot seed it; nothing here rules that
/// out.
#[verifier::external_body]
pub(crate) fn random_index(bound: usize) -> (idx: usize)
    requires
        bound > 0,
    ensures
        idx < bound,
{
    rand::thread_rng().gen_range(0..bound)
}

} // verus!
