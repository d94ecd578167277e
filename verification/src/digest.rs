//! Digests and their textual form. The hashing itself is done by `sha2`, the
//! hexadecimal rendering by `hex`; both are taken on trust here.

use sha2::Digest;
use vstd::prelude::*;

verus! {

/// Number of bytes in a SHA-256 digest.
pub const DIGEST_LEN: usize = 32;

/// The SHA-256 digest of a byte string.
pub uninterp spec fn sha256(data: Seq<u8>) -> Seq<u8>;

/// The sixteen lower-case hexadecimal digits, by value.
pub open spec fn hex_digits() -> Seq<char> {
    seq!['0', '1', '2', '3', '4', '5', '6', '7', '8', '9', 'a', 'b', 'c', 'd', 'e', 'f']
}

/// Lower-case hexadecimal text of a byte string: two digits per byte, the
/// high half first.
pub open spec fn hex_chars(bytes: Seq<u8>) -> Seq<char> {
    Seq::new(
        2 * bytes.len(),
        |i: int|
            if i % 2 == 0 {
                hex_digits()[bytes[i / 2] as int / 16]
            } else {
                hex_digits()[bytes[i / 2] as int % 16]
            },
    )
}

/// Trusted: `sha2::Sha256::digest`. The contract names the digest of the
/// input as `sha256` and claims that it is 32 bytes long, the output size of
/// SHA-256.
#[verifier::external_body]
pub(crate) fn sha256_digest(data: &Vec<u8>) -> (out: Vec<u8>)
    ensures
        out@ == sha256(data@),
        out@.len() == DIGEST_LEN,
{
    sha2::Sha256::digest(data).to_vec()
}

/// Trusted: `hex::encode`. The contract claims that the text holds two
/// lower-case hexadecimal digits for each input byte, in order, the digit of
/// the high four bits before that of the low four.
#[verifier::external_body]
pub(crate) fn hex_encode(bytes: &Vec<u8>) -> (text: String)
    ensures
        text@ == hex_chars(bytes@),
{
    hex::encode(bytes)
}

} // verus!
