//! SHA-256, the checksum every tool is published with.
use sha2::{Digest, Sha256};
use vstd::prelude::*;

use crate::text;

verus! {

/// The SHA-256 digest of some bytes.
pub uninterp spec fn sha256(bytes: Seq<u8>) -> Seq<u8>;

/// Computes a digest with `Sha256::digest`, which depends on the bytes alone and is 32 bytes long.
#[verifier::external_body]
fn digest(bytes: &[u8]) -> (r: Vec<u8>)
    ensures
        r@ == sha256(bytes@),
        r@.len() == 32,
{
    Sha256::digest(bytes).to_vec()
}

/// Whether `hash` is written as a SHA-256 is: 64 hexadecimal digits in lower case.
pub open spec fn is_hash(hash: Seq<char>) -> bool {
    &&& hash.len() == 64
    &&& forall|i: int|
        0 <= i < hash.len() ==> '0' <= #[trigger] hash[i] <= '9' || 'a' <= hash[i] <= 'f'
}

/// The SHA-256 of the contents of a file, in lower case hexadecimal.
pub fn sha256_file(contents: &[u8]) -> (r: String)
    ensures
        r@ == text::hex_digits(sha256(contents@)),
        is_hash(r@),
{
    let bytes: Vec<u8> = digest(contents);
    proof {
        text::lemma_hex_digits(bytes@);
    }
    text::hex_text(bytes.as_slice())
}

} // verus!
