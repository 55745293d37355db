//! The fingerprint of a home directory.

use sha2::Digest;
use vstd::prelude::*;

use crate::path::FsPath;

verus! {

/// The SHA-256 digest of a row of bytes.
pub uninterp spec fn sha256_digest(bytes: Seq<u8>) -> Seq<u8>;

/// Calls `sha2::Sha256` on all of `bytes`. The digest is a function of the bytes alone and is
/// 32 bytes long.
#[verifier::external_body]
fn sha256(bytes: &[u8]) -> (r: Vec<u8>)
    ensures
        r@ == sha256_digest(bytes@),
        r@.len() == 32,
{
    let mut hasher = sha2::Sha256::new();
    hasher.update(bytes);
    hasher.finalize().to_vec()
}

/// The lower-case hexadecimal digit for a number below sixteen.
pub open spec fn hex_digit(n: u8) -> char
    recommends
        n < 16,
{
    if n < 10 {
        ('0' as u32 + n) as char
    } else {
        ('a' as u32 + (n - 10)) as char
    }
}

/// Bytes in lower-case hexadecimal, two digits for each byte, the higher one first.
pub open spec fn hex_text(bytes: Seq<u8>) -> Seq<char> {
    Seq::new(
        2 * bytes.len(),
        |i: int|
            if i % 2 == 0 {
                hex_digit(bytes[i / 2] / 16)
            } else {
                hex_digit(bytes[i / 2] % 16)
            },
    )
}

/// Calls `hex::encode`, which writes bytes in lower-case hexadecimal.
#[verifier::external_body]
fn hex_encode(bytes: &[u8]) -> (r: String)
    ensures
        r@ == hex_text(bytes@),
{
    hex::encode(bytes)
}

/// The fingerprint of the home that `home` spells.
pub open spec fn home_fingerprint(home: Seq<u8>) -> Seq<char> {
    hex_text(sha256_digest(home))
}

/// The fingerprint of a home: the SHA-256 digest of its path in hexadecimal.
pub fn home_sha256(home: &FsPath) -> (r: String)
    ensures
        r@ == home_fingerprint(home@),
        r@.len() == 64,
{
    let digest = sha256(home.as_bytes().as_slice());
    hex_encode(digest.as_slice())
}

} // verus!
