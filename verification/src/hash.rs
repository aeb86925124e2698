//! SHA-1 hashing of piece data.

use vstd::prelude::*;

verus! {

/// The 20-byte SHA-1 digest of a byte sequence: a function of the bytes
/// alone, left without a definition here and realized by the `sha1` crate.
pub uninterp spec fn sha1_of(bytes: Seq<u8>) -> Seq<u8>;

/// Takes an array of bytes and performs a SHA-1 hash on it, returning the
/// generated digest as a vector of bytes.
///
/// Relies on `sha1::Sha1` (the `sha1_smol` implementation): the digest
/// depends on the input bytes alone and is always 20 bytes long.
#[verifier::external_body]
pub fn sha(b: &[u8]) -> (r: Vec<u8>)
    ensures
        r@ == sha1_of(b@),
        r@.len() == 20,
{
    let mut m = sha1::Sha1::new();
    m.update(b);
    m.digest().bytes().to_vec()
}

} // verus!
