use vstd::prelude::*;
use base64::Engine;
use sha2::Digest;

verus! {

/// The SHA-256 digest of a byte string.
pub uninterp spec fn sha256_of(b: Seq<u8>) -> Seq<u8>;

/// The padded standard-alphabet base64 text of a byte string.
pub uninterp spec fn base64_of(b: Seq<u8>) -> Seq<char>;

/// The content hash of a file's bytes: the base64 text of their SHA-256 digest.
pub open spec fn content_hash_of(b: Seq<u8>) -> Seq<char> {
    base64_of(sha256_of(b))
}

/// Relies on `sha2::Sha256::digest` (via `Digest`): the 32-byte SHA-256
/// digest of the bytes, which depends on the bytes alone.
#[verifier::external_body]
fn sha256_digest(b: &[u8]) -> (r: Vec<u8>)
    ensures
        r@ == sha256_of(b@),
        r@.len() == 32,
{
    sha2::Sha256::digest(b).to_vec()
}

/// Relies on `base64::engine::general_purpose::STANDARD.encode` (via
/// `Engine`): padded standard base64, four characters for every three bytes
/// or part of three.
#[verifier::external_body]
fn base64_encode(b: &[u8]) -> (r: String)
    ensures
        r@ == base64_of(b@),
        r@.len() == 4 * ((b@.len() + 2) / 3),
{
    base64::engine::general_purpose::STANDARD.encode(b)
}

/// The content hash of a file's bytes. Identical bytes give identical hashes,
/// whatever the file's name or place.
pub fn content_hash(bytes: &[u8]) -> (r: String)
    ensures
        r@ == content_hash_of(bytes@),
        r@.len() == 44,
{
    let d = sha256_digest(bytes);
    base64_encode(d.as_slice())
}

/// Two files with the same bytes have the same content hash.
pub proof fn lemma_same_bytes_same_hash(a: Seq<u8>, b: Seq<u8>)
    requires
        a == b,
    ensures
        content_hash_of(a) == content_hash_of(b),
{
}

} // verus!
