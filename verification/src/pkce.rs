//! PKCE (RFC 7636): the code verifier and its S256 challenge.

use vstd::prelude::*;
use vstd::string::StringSliceAdditionalSpecFns;

use crate::codec::{
    base64_url_nopad_encode, encode_base64_url_nopad, random_index, sha256, sha256_digest,
};

verus! {

/// The unreserved characters from which a code verifier is drawn.
pub const CODE_VERIFIER_CHARSET: &'static str = "ABCDEFGHIJKLMNOPQRSTUVWXYZabcdefghijklmnopqrstuvwxyz0123456789-._~";

/// The length of a generated code verifier.
pub const CODE_VERIFIER_LEN: usize = 43;

/// The characters RFC 7636 allows in a code verifier: ASCII letters and
/// digits, `-`, `.`, `_` and `~`.
pub open spec fn is_unreserved(c: char) -> bool {
    ||| ('A' <= c && c <= 'Z')
    ||| ('a' <= c && c <= 'z')
    ||| ('0' <= c && c <= '9')
    ||| c == '-' || c == '.' || c == '_' || c == '~'
}

/// A well-formed verifier as this crate generates it.
pub open spec fn is_code_verifier(v: Seq<char>) -> bool {
    &&& v.len() == CODE_VERIFIER_LEN
    &&& forall|k: int| 0 <= k < v.len() ==> CODE_VERIFIER_CHARSET@.contains(#[trigger] v[k])
}

/// The S256 challenge of a verifier: base64url (no padding) of the SHA-256
/// of its UTF-8 bytes.
pub open spec fn pkce_challenge(verifier_bytes: Seq<u8>) -> Seq<char> {
    base64_url_nopad_encode(sha256(verifier_bytes))
}

/// Every character of the verifier charset is unreserved in the sense of
/// RFC 7636.
proof fn lemma_charset_unreserved()
    ensures
        forall|i: int|
            0 <= i < CODE_VERIFIER_CHARSET@.len() ==> is_unreserved(#[trigger] CODE_VERIFIER_CHARSET@[i]),
{
    reveal_strlit("ABCDEFGHIJKLMNOPQRSTUVWXYZabcdefghijklmnopqrstuvwxyz0123456789-._~");
}

/// A generated verifier is 43 characters long and holds only unreserved
/// characters, as RFC 7636 requires of a code verifier.
pub proof fn lemma_code_verifier_unreserved(v: Seq<char>)
    requires
        is_code_verifier(v),
    ensures
        v.len() == 43,
        forall|k: int| 0 <= k < v.len() ==> is_unreserved(#[trigger] v[k]),
{
    lemma_charset_unreserved();
    assert forall|k: int| 0 <= k < v.len() implies is_unreserved(#[trigger] v[k]) by {
        assert(CODE_VERIFIER_CHARSET@.contains(v[k]));
        let j = choose|j: int| 0 <= j < CODE_VERIFIER_CHARSET@.len() && CODE_VERIFIER_CHARSET@[j] == v[k];
        assert(is_unreserved(CODE_VERIFIER_CHARSET@[j]));
    }
}

/// The number of characters in the verifier charset.
pub const CODE_VERIFIER_CHARSET_LEN: usize = 66;

/// The verifier spelled by a sequence of charset indices.
pub open spec fn verifier_of(indices: Seq<usize>) -> Seq<char> {
    indices.map_values(|i: usize| CODE_VERIFIER_CHARSET@[i as int])
}

/// The verifier whose `k`-th character is the charset character at
/// `indices[k]`.
pub fn verifier_from_indices(indices: &Vec<usize>) -> (verifier: String)
    requires
        indices@.len() == CODE_VERIFIER_LEN,
        forall|k: int| 0 <= k < indices@.len() ==> #[trigger] indices@[k] < CODE_VERIFIER_CHARSET_LEN,
    ensures
        verifier@ == verifier_of(indices@),
        is_code_verifier(verifier@),
{
    proof {
        reveal_strlit("ABCDEFGHIJKLMNOPQRSTUVWXYZabcdefghijklmnopqrstuvwxyz0123456789-._~");
    }
    assert(CODE_VERIFIER_CHARSET@.len() == CODE_VERIFIER_CHARSET_LEN);
    let mut verifier = String::new();
    let mut i: usize = 0;
    while i < indices.len()
        invariant
            i <= indices@.len(),
            CODE_VERIFIER_CHARSET@.len() == CODE_VERIFIER_CHARSET_LEN,
            forall|k: int| 0 <= k < indices@.len() ==> #[trigger] indices@[k] < CODE_VERIFIER_CHARSET_LEN,
            verifier@ == verifier_of(indices@.take(i as int)),
        decreases indices@.len() - i,
    {
        let c = CODE_VERIFIER_CHARSET.get_char(indices[i]);
        verifier.push(c);
        assert(verifier_of(indices@.take(i + 1)) =~= verifier_of(indices@.take(i as int)).push(c));
        i = i + 1;
    }
    assert(indices@.take(indices@.len() as int) =~= indices@);
    assert forall|k: int| 0 <= k < verifier@.len() implies CODE_VERIFIER_CHARSET@.contains(
        #[trigger] verifier@[k],
    ) by {
        assert(CODE_VERIFIER_CHARSET@[indices@[k] as int] == verifier@[k]);
    }
    verifier
}

/// Generates a random 43-character code verifier over the unreserved set:
/// 43 charset indices are drawn, and the verifier spells them.
pub fn generate_code_verifier() -> (verifier: String)
    ensures
        is_code_verifier(verifier@),
        exists|indices: Seq<usize>|
            indices.len() == CODE_VERIFIER_LEN && (forall|k: int|
                0 <= k < indices.len() ==> #[trigger] indices[k] < CODE_VERIFIER_CHARSET_LEN)
                && verifier@ == verifier_of(indices),
{
    let mut indices: Vec<usize> = Vec::new();
    while indices.len() < CODE_VERIFIER_LEN
        invariant
            indices@.len() <= CODE_VERIFIER_LEN,
            forall|k: int| 0 <= k < indices@.len() ==> #[trigger] indices@[k] < CODE_VERIFIER_CHARSET_LEN,
        decreases CODE_VERIFIER_LEN - indices@.len(),
    {
        indices.push(random_index(CODE_VERIFIER_CHARSET_LEN));
    }
    verifier_from_indices(&indices)
}

/// The S256 challenge is the unpadded base64url text of the SHA-256 of the
/// verifier's bytes.
pub proof fn lemma_challenge_is_s256(verifier_bytes: Seq<u8>)
    ensures
        pkce_challenge(verifier_bytes) == base64_url_nopad_encode(sha256(verifier_bytes)),
{
}

/// Computes the S256 challenge of a verifier.
pub fn generate_pkce_challenge(verifier: &str) -> (challenge: String)
    ensures
        challenge@ == pkce_challenge(verifier.spec_bytes()),
        challenge@ == base64_url_nopad_encode(sha256(verifier.spec_bytes())),
{
    let digest = sha256_digest(verifier.as_bytes());
    encode_base64_url_nopad(digest.as_slice())
}

} // verus!
