//! The SHA-256 digest, computed by the `sha2` crate, and its rendering as text.

use crate::render::{hex_encode, hex_lower};
use sha2::Digest;
use vstd::prelude::*;

verus! {

/// The SHA-256 digest of `bytes`.
///
/// This is a name for what `sha2::Sha256::digest` returns. The algorithm is
/// not written out here; all that is used of it is that the digest depends on
/// the input alone and is thirty-two bytes long.
pub uninterp spec fn sha256_digest(bytes: Seq<u8>) -> Seq<u8>;

/// Calls `sha2::Sha256::digest` on `bytes`.
///
/// Taken on trust: the bytes returned are the SHA-256 digest of the input,
/// and there are thirty-two of them (the output size that `sha2` declares
/// for `Sha256`).
#[verifier::external_body]
fn sha256(bytes: &[u8]) -> (digest: Vec<u8>)
    ensures
        digest@ == sha256_digest(bytes@),
        digest@.len() == 32,
{
    sha2::Sha256::digest(bytes).to_vec()
}

/// The SHA-256 digest of `bytes` as sixty-four lowercase hexadecimal digits.
pub open spec fn sha256_hex(bytes: Seq<u8>) -> Seq<char> {
    hex_lower(sha256_digest(bytes))
}

/// Hashes `bytes` with SHA-256 and renders the digest in lowercase
/// hexadecimal.
pub fn digest_hex(bytes: &[u8]) -> (text: String)
    ensures
        text@ == sha256_hex(bytes@),
        text@.len() == 64,
{
    let digest = sha256(bytes);
    hex_encode(digest.as_slice())
}

} // verus!
