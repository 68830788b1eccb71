//! Content hashes of archives and their comparison with locked hashes.
use vstd::prelude::*;
use crate::text::str_eq;
use crate::util::{format_hash, strip_hash_tag};

verus! {

/// The SHA-256 digest of the bytes, as `sha2` computes it.
pub uninterp spec fn sha256_of(data: Seq<u8>) -> Seq<u8>;

/// Relies on `sha2::Sha256::digest`: the SHA-256 digest of the bytes, 32 bytes long.
#[verifier::external_body]
fn sha256(data: &[u8]) -> (r: Vec<u8>)
    ensures
        r@ == sha256_of(data@),
        r@.len() == 32,
{
    <sha2::Sha256 as sha2::Digest>::digest(data).to_vec()
}

/// The lowercase hexadecimal digit of a value below 16.
pub open spec fn hex_digit(n: int) -> char {
    seq!['0', '1', '2', '3', '4', '5', '6', '7', '8', '9', 'a', 'b', 'c', 'd', 'e', 'f'][n]
}

/// Two lowercase hexadecimal digits per byte, the high one first.
pub open spec fn hex_of(b: Seq<u8>) -> Seq<char>
    decreases b.len(),
{
    if b.len() == 0 {
        Seq::empty()
    } else {
        hex_of(b.drop_last()) + seq![hex_digit(b.last() as int / 16), hex_digit(b.last() as int % 16)]
    }
}

/// Relies on `hex::encode`: each byte as two lowercase hexadecimal digits,
/// the high nibble first.
#[verifier::external_body]
fn to_hex(b: &[u8]) -> (r: String)
    ensures
        r@ == hex_of(b@),
{
    hex::encode(b)
}

/// The hex-encoded SHA-256 digest of an archive.
pub open spec fn archive_digest(data: Seq<u8>) -> Seq<char> {
    hex_of(sha256_of(data))
}

/// Computes the hex-encoded SHA-256 digest of an archive.
pub fn archive_hash(data: &[u8]) -> (r: String)
    ensures
        r@ == archive_digest(data@),
{
    let digest = sha256(data);
    to_hex(digest.as_slice())
}

/// Whether a computed digest is the one that a lockfile records, which may
/// carry a `sha256:` tag.
pub fn hash_matches(actual: &str, expected: &str) -> (r: bool)
    ensures
        r == (actual@ == strip_hash_tag(expected@)),
{
    let expected = format_hash(expected);
    str_eq(actual, expected.as_str())
}

} // verus!
