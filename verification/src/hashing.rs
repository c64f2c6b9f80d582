//! Content hashes, from the `blake3` crate.

use vstd::prelude::*;

verus! {

/// The blake3 hash of bytes, in lowercase hexadecimal.
pub uninterp spec fn blake3_hex(bytes: Seq<u8>) -> Seq<char>;

/// `blake3::hash` hashes the bytes, and `Hash::to_hex` writes the hash as 64
/// lowercase hexadecimal digits.
#[verifier::external_body]
pub(crate) fn content_hash(bytes: &Vec<u8>) -> (r: String)
    ensures
        r@ == blake3_hex(bytes@),
        r@.len() == 64,
{
    blake3::hash(bytes).to_hex().to_string()
}

} // verus!
