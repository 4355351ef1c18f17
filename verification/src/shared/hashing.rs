//! Content fingerprints: the lower-case hexadecimal SHA-256 digest that the
//! store uses to recognise content it already holds.

use vstd::prelude::*;
use crate::text::digit_char;

verus! {

/// The SHA-256 digest of `data`.
pub uninterp spec fn sha256(data: Seq<u8>) -> Seq<u8>;

/// Calls `sha2::Sha256::digest` (the `Digest` trait's one-shot method).
/// The contract claims only that the 32 bytes returned are the digest of the
/// input, named by `sha256`; the digest itself is not stated.
#[verifier::external_body]
fn sha256_digest(data: &[u8]) -> (r: Vec<u8>)
    ensures
        r@ == sha256(data@),
        r@.len() == 32,
{
    <sha2::Sha256 as sha2::Digest>::digest(data).to_vec()
}

/// Lower-case hexadecimal text of `bytes`: two digits per byte, high nibble
/// first.
pub open spec fn hex_lower(bytes: Seq<u8>) -> Seq<char>
    decreases bytes.len(),
{
    if bytes.len() == 0 {
        Seq::empty()
    } else {
        seq![digit_char((bytes[0] / 16) as int), digit_char((bytes[0] % 16) as int)] + hex_lower(
            bytes.drop_first(),
        )
    }
}

/// Calls `hex::encode`, which (by its source: `encode_hex` over the
/// lower-case alphabet) renders each byte as two lower-case hexadecimal
/// digits, high nibble first.
#[verifier::external_body]
fn hex_encode(data: &[u8]) -> (r: String)
    ensures
        r@ == hex_lower(data@),
{
    hex::encode(data)
}

/// The fingerprint of `data`: `hex_lower(sha256(data))`.
pub open spec fn content_hash_of(data: Seq<u8>) -> Seq<char> {
    hex_lower(sha256(data))
}

/// The fingerprint of `content`: its SHA-256 digest in lower-case hex.
pub fn compute_hash(content: &[u8]) -> (r: String)
    ensures
        r@ == content_hash_of(content@),
{
    let digest = sha256_digest(content);
    hex_encode(digest.as_slice())
}

} // verus!
