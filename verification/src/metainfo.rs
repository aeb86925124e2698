//! The parsed `.torrent` descriptor: announce URL, the info dictionary's
//! fields, and the 20-byte info-hash identifying the swarm.

use vstd::prelude::*;

use vstd::arithmetic::div_mod::lemma_fundamental_div_mod;

verus! {

/// The info dictionary: the uniform piece length, one 20-byte SHA-1 hash per
/// piece, the piece count, the output file name, and the total payload
/// length in bytes.
#[derive(Debug)]
pub struct Info {
    pub piece_length: u32,
    pub pieces: Vec<Vec<u8>>,
    pub num_pieces: u32,
    pub name: String,
    pub length: u64,
}

/// A metainfo record: announce URL, creator (empty when absent), the info
/// dictionary, and the SHA-1 hash of the bencoded info dictionary.
#[derive(Debug)]
pub struct MetaInfo {
    pub announce: String,
    pub created_by: String,
    pub info: Info,
    pub info_hash: Vec<u8>,
}

impl Info {
    /// The piece count equals the hash vector's length, every hash is 20
    /// bytes, and the payload length lies over filling all but the last
    /// piece and at most filling every piece: the last piece may be short
    /// but is never empty.
    pub open spec fn wf(self) -> bool {
        &&& self.num_pieces == self.pieces@.len()
        &&& self.num_pieces >= 1
        &&& self.piece_length >= 1
        &&& forall|i: int|
            0 <= i < self.pieces@.len() ==> (#[trigger] self.pieces@[i])@.len() == 20
        &&& (self.num_pieces - 1) * self.piece_length < self.length
        &&& self.length <= self.num_pieces * self.piece_length
    }

    /// The length of piece `i`: the uniform piece length for every piece but
    /// the last; the last piece takes the remainder of the payload.
    pub open spec fn spec_piece_length(self, i: int) -> int {
        if i < self.num_pieces - 1 {
            self.piece_length as int
        } else {
            self.length - (self.num_pieces - 1) * self.piece_length
        }
    }
}

/// Splits the concatenated 20-byte SHA-1 piece hashes of an info dictionary
/// into one vector per piece.
pub fn split_piece_hashes(bytes: &[u8]) -> (r: Vec<Vec<u8>>)
    requires
        bytes@.len() % 20 == 0,
    ensures
        r@.len() == bytes@.len() / 20,
        forall|i: int|
            0 <= i < r@.len() ==> (#[trigger] r@[i])@ == bytes@.subrange(20 * i, 20 * i + 20),
{
    let count: usize = bytes.len() / 20;
    proof {
        lemma_fundamental_div_mod(bytes@.len() as int, 20);
    }
    let mut hashes: Vec<Vec<u8>> = Vec::new();
    let mut c: usize = 0;
    while c < count
        invariant
            count == bytes@.len() as int / 20,
            20 * count == bytes@.len(),
            20 * count <= usize::MAX,
            c <= count,
            hashes@.len() == c,
            forall|i: int|
                0 <= i < c ==> (#[trigger] hashes@[i])@ == bytes@.subrange(20 * i, 20 * i + 20),
        decreases count - c,
    {
        proof {
            assert(20 * (c + 1) <= 20 * count) by (nonlinear_arith)
                requires
                    c + 1 <= count,
            ;
        }
        let start: usize = 20 * c;
        let chunk = vstd::slice::slice_to_vec(vstd::slice::slice_subrange(bytes, start, start + 20));
        hashes.push(chunk);
        c += 1;
    }
    hashes
}

} // verus!
