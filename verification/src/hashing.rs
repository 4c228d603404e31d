//! SHA-256 digests and their hexadecimal text.

use sha2::Digest;
use vstd::prelude::*;

verus! {

/// The SHA-256 digest of a byte string.
pub uninterp spec fn sha256_digest(bytes: Seq<u8>) -> Seq<u8>;

/// `sha2::Sha256` fed with two byte strings one after the other: the digest is that of their
/// concatenation and takes 32 bytes.
#[verifier::external_body]
pub(crate) fn sha256(first: &[u8], rest: &[u8]) -> (digest: Vec<u8>)
    ensures
        digest@ == sha256_digest(first@ + rest@),
        digest@.len() == 32,
{
    let mut hasher = sha2::Sha256::new();
    hasher.update(first);
    hasher.update(rest);
    hasher.finalize().to_vec()
}

/// The hexadecimal digit of a value below sixteen, in lower case.
pub open spec fn hex_digit(value: int) -> char {
    if value < 10 {
        ((48 + value) as u32) as char
    } else {
        ((87 + value) as u32) as char
    }
}

/// Two lower-case hexadecimal digits per byte, the high half first.
pub open spec fn hex_text(bytes: Seq<u8>) -> Seq<char> {
    Seq::new(
        2 * bytes.len(),
        |i: int|
            if i % 2 == 0 {
                hex_digit(bytes[i / 2] as int / 16)
            } else {
                hex_digit(bytes[i / 2] as int % 16)
            },
    )
}

/// `hex::encode`: two lower-case hexadecimal digits per byte, the high half first.
#[verifier::external_body]
pub(crate) fn hex_encode(bytes: &[u8]) -> (text: String)
    ensures
        text@ == hex_text(bytes@),
{
    hex::encode(bytes)
}

pub open spec fn is_lower_hex(c: char) -> bool {
    ('0' <= c && c <= '9') || ('a' <= c && c <= 'f')
}

/// Sixty-four lower-case hexadecimal digits.
pub open spec fn is_hash_text(text: Seq<char>) -> bool {
    text.len() == 64 && forall|i: int| 0 <= i < text.len() ==> is_lower_hex(#[trigger] text[i])
}

/// The text of a 32-byte digest is made of sixty-four lower-case hexadecimal digits.
pub proof fn hex_of_digest_is_hash_text(digest: Seq<u8>)
    requires
        digest.len() == 32,
    ensures
        is_hash_text(hex_text(digest)),
{
    let text = hex_text(digest);
    assert forall|i: int| 0 <= i < text.len() implies is_lower_hex(#[trigger] text[i]) by {
        let byte = digest[i / 2] as int;
        assert(0 <= byte / 16 < 16);
        assert(0 <= byte % 16 < 16);
    }
}

} // verus!
