//! Content fingerprints: the lowercase hex of the SHA-256 digest of an
//! archive image.

use vstd::prelude::*;

verus! {

/// Name for the SHA-256 digest of a byte sequence.
pub uninterp spec fn sha256_of(data: Seq<u8>) -> Seq<u8>;

/// The lowercase hex digit for a value below 16.
pub open spec fn hex_digit(n: u8) -> char {
    seq!['0', '1', '2', '3', '4', '5', '6', '7', '8', '9', 'a', 'b', 'c', 'd', 'e', 'f'][n as int % 16]
}

/// Two lowercase hex digits per byte, high nibble first.
pub open spec fn hex_of(b: Seq<u8>) -> Seq<char>
    decreases b.len(),
{
    if b.len() == 0 {
        Seq::empty()
    } else {
        hex_of(b.drop_last()).push(hex_digit(b.last() / 16)).push(hex_digit(b.last() % 16))
    }
}

/// The fingerprint of an archive image.
pub open spec fn fingerprint_of(blob: Seq<u8>) -> Seq<char> {
    hex_of(sha256_of(blob))
}

/// Relies on sha2's `Sha256::digest`: the digest of the bytes, 32 bytes long.
#[verifier::external_body]
fn sha256(data: &[u8]) -> (r: Vec<u8>)
    ensures
        r@ == sha256_of(data@),
        r@.len() == 32,
{
    <sha2::Sha256 as sha2::Digest>::digest(data).to_vec()
}

/// Relies on `hex::encode`: two lowercase hex digits for each byte.
#[verifier::external_body]
fn to_hex(data: &[u8]) -> (r: String)
    ensures
        r@ == hex_of(data@),
{
    hex::encode(data)
}

/// The fingerprint of an archive image: 64 lowercase hex digits.
pub fn fingerprint(blob: &[u8]) -> (r: String)
    ensures
        r@ == fingerprint_of(blob@),
{
    let digest = sha256(blob);
    to_hex(digest.as_slice())
}

} // verus!
