//! Pieces: the units of hash verification. A piece owns an ordered ledger of
//! blocks; once every block has its payload the concatenation is hashed, and
//! only a SHA-1 match completes the piece and yields the bytes to write.

use vstd::prelude::*;

use vstd::arithmetic::div_mod::{lemma_fundamental_div_mod, lemma_fundamental_div_mod_converse_div,
    lemma_mod_bound};

use crate::block::{spec_block_eq, Block};
use crate::hash::{sha, sha1_of};
use crate::util::vecs_u8_equal;

verus! {

/// Blocks are requested in units of this many bytes; the last block of a
/// piece is the remainder.
pub const BLOCK_SIZE: u32 = 16384;

/// A portion of the download, described in the metainfo and verified by a
/// SHA-1 hash. A piece is made up of blocks.
#[derive(Debug)]
pub struct Piece {
    pub length: u32,
    pub piece_length: u32,
    pub index: u32,
    pub blocks: Vec<Block>,
    pub hash: Vec<u8>,
    pub is_complete: bool,
}

/// How many blocks a piece of `length` bytes has: the length divided by the
/// block size, rounded up.
pub open spec fn spec_num_blocks(length: u32) -> int {
    (length + BLOCK_SIZE - 1) as int / BLOCK_SIZE as int
}

/// The length of block `i` of a piece of `length` bytes: the block size for
/// every block but the last, the remainder for the last.
pub open spec fn spec_block_length(length: u32, i: int) -> int {
    if i < spec_num_blocks(length) - 1 {
        BLOCK_SIZE as int
    } else {
        length - BLOCK_SIZE * (spec_num_blocks(length) - 1)
    }
}

/// The payload a block contributes to the assembled piece.
pub open spec fn spec_block_data(b: Block) -> Seq<u8> {
    match b.data {
        Some(d) => d@,
        None => seq![],
    }
}

/// The concatenation of the block payloads, in block order.
pub open spec fn spec_concat_blocks(blocks: Seq<Block>) -> Seq<u8>
    decreases blocks.len(),
{
    if blocks.len() == 0 {
        seq![]
    } else {
        spec_concat_blocks(blocks.drop_last()) + spec_block_data(blocks.last())
    }
}

/// Every block of the ledger has its payload.
pub open spec fn spec_all_present(blocks: Seq<Block>) -> bool {
    forall|i: int| 0 <= i < blocks.len() ==> (#[trigger] blocks[i]).data is Some
}

/// The index of the first block without a payload, scanning from `k` up.
pub open spec fn first_missing(blocks: Seq<Block>, k: int) -> Option<int>
    decreases blocks.len() - k,
    when 0 <= k <= blocks.len()
{
    if k >= blocks.len() {
        None
    } else if blocks[k].data is None {
        Some(k)
    } else {
        first_missing(blocks, k + 1)
    }
}

/// What `first_missing` returns: the first index at or after `k` whose block
/// lacks a payload, or nothing when every block from `k` on has one.
pub proof fn lemma_first_missing_props(blocks: Seq<Block>, k: int)
    requires
        0 <= k <= blocks.len(),
    ensures
        match first_missing(blocks, k) {
            Some(i) => k <= i < blocks.len() && blocks[i].data is None && (forall|j: int|
                k <= j < i ==> (#[trigger] blocks[j]).data is Some),
            None => forall|j: int| k <= j < blocks.len() ==> (#[trigger] blocks[j]).data is Some,
        },
    decreases blocks.len() - k,
{
    if k < blocks.len() && blocks[k].data is Some {
        lemma_first_missing_props(blocks, k + 1);
    }
}

/// Scanning from the start is the same as scanning from `k` when every block
/// before `k` has its payload.
pub proof fn lemma_first_missing_from(blocks: Seq<Block>, k: int)
    requires
        0 <= k <= blocks.len(),
        forall|j: int| 0 <= j < k ==> (#[trigger] blocks[j]).data is Some,
    ensures
        first_missing(blocks, 0) == first_missing(blocks, k),
    decreases k,
{
    if k > 0 {
        lemma_first_missing_from(blocks, k - 1);
    }
}

/// Every payload held in the ledger has its block's declared length.
pub open spec fn spec_sized(blocks: Seq<Block>) -> bool {
    forall|i: int|
        0 <= i < blocks.len() ==> match (#[trigger] blocks[i]).data {
            Some(d) => d@.len() == blocks[i].length,
            None => true,
        }
}

/// A full, correctly sized block ledger assembles to exactly one piece: the
/// concatenation of the payloads is `length` bytes long, so a verified
/// piece fills its whole byte range in the output file.
pub proof fn lemma_assembled_length(blocks: Seq<Block>, length: u32)
    requires
        length >= 1,
        blocks.len() == spec_num_blocks(length),
        forall|i: int|
            0 <= i < blocks.len() ==> (#[trigger] blocks[i]).length == spec_block_length(
                length,
                i,
            ),
        spec_all_present(blocks),
        spec_sized(blocks),
    ensures
        spec_concat_blocks(blocks).len() == length,
{
    let nb = spec_num_blocks(length);
    lemma_fundamental_div_mod(length + BLOCK_SIZE - 1, BLOCK_SIZE as int);
    lemma_mod_bound(length + BLOCK_SIZE - 1, BLOCK_SIZE as int);
    lemma_concat_prefix_length(blocks, length, nb);
    assert(blocks.take(nb) =~= blocks);
}

/// The length of the concatenation of the first `i` blocks of a full,
/// correctly sized ledger: `i · BLOCK_SIZE` until the last block, `length`
/// once the last block is in.
proof fn lemma_concat_prefix_length(blocks: Seq<Block>, length: u32, i: int)
    requires
        length >= 1,
        blocks.len() == spec_num_blocks(length),
        forall|j: int|
            0 <= j < blocks.len() ==> (#[trigger] blocks[j]).length == spec_block_length(
                length,
                j,
            ),
        spec_all_present(blocks),
        spec_sized(blocks),
        0 <= i <= blocks.len(),
        BLOCK_SIZE * (spec_num_blocks(length) - 1) < length,
    ensures
        spec_concat_blocks(blocks.take(i)).len() == (if i < spec_num_blocks(length) {
            i * BLOCK_SIZE
        } else {
            length as int
        }),
    decreases i,
{
    let nb = spec_num_blocks(length);
    if i == 0 {
        assert(blocks.take(0) =~= Seq::<Block>::empty());
    } else {
        lemma_concat_prefix_length(blocks, length, i - 1);
        let prefix = blocks.take(i);
        assert(prefix.drop_last() =~= blocks.take(i - 1));
        assert(prefix.last() == blocks[i - 1]);
        assert(spec_concat_blocks(prefix).len() == spec_concat_blocks(blocks.take(i - 1)).len()
            + blocks[i - 1].length);
        assert((i - 1) * BLOCK_SIZE + BLOCK_SIZE == i * BLOCK_SIZE) by (nonlinear_arith);
        if i == nb {
            assert(blocks[i - 1].length == length - BLOCK_SIZE * (nb - 1));
            assert((nb - 1) * BLOCK_SIZE == BLOCK_SIZE * (nb - 1)) by (nonlinear_arith);
        } else {
            assert(blocks[i - 1].length == BLOCK_SIZE);
        }
    }
}

/// A block's byte offset within its piece, `b · BLOCK_SIZE`, stays below the
/// piece's length.
pub proof fn lemma_block_offset_bound(length: u32, b: int)
    requires
        length >= 1,
        0 <= b < spec_num_blocks(length),
    ensures
        b * BLOCK_SIZE < length,
{
    let q = spec_num_blocks(length);
    lemma_fundamental_div_mod(length + BLOCK_SIZE - 1, BLOCK_SIZE as int);
    lemma_mod_bound(length + BLOCK_SIZE - 1, BLOCK_SIZE as int);
    vstd::arithmetic::mul::lemma_mul_inequality(b, q - 1, BLOCK_SIZE as int);
    assert((q - 1) * BLOCK_SIZE == BLOCK_SIZE as int * q - BLOCK_SIZE) by (nonlinear_arith);
}

/// What storing a block did to its piece.
#[derive(Debug)]
pub enum StoreOutcome {
    /// Some block payload is still missing; nothing was checked.
    Incomplete,
    /// Every block was present and the SHA-1 digest matched the expected
    /// hash: the piece is complete, and the assembled bytes are handed back
    /// to be written at the piece's offset in the output file.
    Verified(Vec<u8>),
    /// Every block was present but the digest did not match: every block
    /// payload was dropped and the piece is requestable again. Not an
    /// error — a normal, recoverable event.
    HashMismatch,
}

impl Piece {
    /// The block ledger matches the piece's length: blocks are indexed in
    /// order and sized by `spec_block_length`.
    pub open spec fn wf(self) -> bool {
        &&& self.length >= 1
        &&& self.blocks.len() == spec_num_blocks(self.length)
        &&& forall|i: int|
            0 <= i < self.blocks.len() ==> (#[trigger] self.blocks[i]).index == i
        &&& forall|i: int|
            0 <= i < self.blocks.len() ==> (#[trigger] self.blocks[i]).length == spec_block_length(
                self.length,
                i,
            )
    }

    /// Every block of the piece has its payload.
    pub open spec fn all_blocks_present(self) -> bool {
        spec_all_present(self.blocks@)
    }

    /// No block of the piece holds a payload.
    pub open spec fn no_block_data(self) -> bool {
        forall|i: int| 0 <= i < self.blocks.len() ==> (#[trigger] self.blocks[i]).data is None
    }

    /// A piece of `length` bytes at `index`, with an empty block ledger of
    /// `⌈length / BLOCK_SIZE⌉` blocks, not complete.
    pub fn new(length: u32, index: u32, piece_length: u32, hash: Vec<u8>) -> (r: Piece)
        requires
            length >= 1,
        ensures
            r.wf(),
            r.length == length,
            r.piece_length == piece_length,
            r.index == index,
            r.hash == hash,
            !r.is_complete,
            r.no_block_data(),
            r.blocks@.len() == spec_num_blocks(length),
    {
        let num_blocks: u32 = (length - 1) / BLOCK_SIZE + 1;
        proof {
            lemma_fundamental_div_mod(length - 1, BLOCK_SIZE as int);
            lemma_mod_bound(length - 1, BLOCK_SIZE as int);
            let q = (length - 1) as int / BLOCK_SIZE as int;
            let r = (length - 1) as int % BLOCK_SIZE as int;
            lemma_fundamental_div_mod_converse_div(
                length + BLOCK_SIZE - 1,
                BLOCK_SIZE as int,
                q + 1,
                r,
            );
            assert(num_blocks == spec_num_blocks(length));
            assert(BLOCK_SIZE * (num_blocks - 1) == length - 1 - r);
        }
        let mut blocks: Vec<Block> = Vec::new();
        let mut i: u32 = 0;
        while i < num_blocks
            invariant
                length >= 1,
                num_blocks == spec_num_blocks(length),
                BLOCK_SIZE * (num_blocks - 1) < length,
                i <= num_blocks,
                blocks@.len() == i,
                forall|j: int| 0 <= j < i ==> (#[trigger] blocks@[j]).index == j,
                forall|j: int|
                    0 <= j < i ==> (#[trigger] blocks@[j]).length == spec_block_length(length, j),
                forall|j: int| 0 <= j < i ==> (#[trigger] blocks@[j]).data is None,
            decreases num_blocks - i,
        {
            let block_length: u32 = if i < num_blocks - 1 {
                BLOCK_SIZE
            } else {
                length - BLOCK_SIZE * (num_blocks - 1)
            };
            let block = Block::new(i, block_length);
            blocks.push(block);
            i += 1;
        }
        Piece { length, piece_length, index, hash, blocks, is_complete: false }
    }

    /// Installs `data` as the payload of block `block_index`. When that was
    /// the last missing payload, hashes the assembled piece: a SHA-1 match
    /// completes the piece, releases the block payloads and hands back the
    /// assembled bytes; a mismatch releases the payloads and leaves the
    /// piece incomplete, to be requested again.
    pub fn store(&mut self, block_index: u32, data: Vec<u8>) -> (r: StoreOutcome)
        requires
            (block_index as int) < old(self).blocks@.len(),
            !old(self).is_complete,
        ensures
            final(self).length == old(self).length,
            final(self).piece_length == old(self).piece_length,
            final(self).index == old(self).index,
            final(self).hash == old(self).hash,
            final(self).blocks@.len() == old(self).blocks@.len(),
            forall|i: int|
                0 <= i < old(self).blocks@.len() ==> (#[trigger] final(self).blocks@[i]).index
                    == old(self).blocks@[i].index && final(self).blocks@[i].length == old(
                    self,
                ).blocks@[i].length,
            ({
                let updated = old(self).blocks@.update(
                    block_index as int,
                    Block {
                        index: old(self).blocks@[block_index as int].index,
                        length: old(self).blocks@[block_index as int].length,
                        data: Some(data),
                    },
                );
                if !spec_all_present(updated) {
                    &&& r is Incomplete
                    &&& final(self).blocks@ == updated
                    &&& !final(self).is_complete
                } else if sha1_of(spec_concat_blocks(updated)) == old(self).hash@ {
                    &&& r matches StoreOutcome::Verified(d) && d@ == spec_concat_blocks(updated)
                    &&& final(self).is_complete
                    &&& final(self).no_block_data()
                } else {
                    &&& r is HashMismatch
                    &&& !final(self).is_complete
                    &&& final(self).no_block_data()
                }
            }),
    {
        let idx = self.blocks[block_index as usize].index;
        let len = self.blocks[block_index as usize].length;
        self.blocks[block_index as usize] = Block { index: idx, length: len, data: Some(data) };
        if self.have_all_blocks() {
            let ghost updated = self.blocks@;
            let mut assembled: Vec<u8> = Vec::new();
            let mut i: usize = 0;
            while i < self.blocks.len()
                invariant
                    self.blocks@ == updated,
                    spec_all_present(updated),
                    i <= self.blocks@.len(),
                    assembled@ == spec_concat_blocks(self.blocks@.take(i as int)),
                decreases self.blocks@.len() - i,
            {
                let ghost prefix = self.blocks@.take(i as int);
                let payload = self.blocks[i].data.as_ref().unwrap();
                assembled.extend_from_slice(payload.as_slice());
                proof {
                    let next = self.blocks@.take(i + 1 as int);
                    assert(next.drop_last() =~= prefix);
                    assert(next.last() == self.blocks@[i as int]);
                }
                i += 1;
            }
            proof {
                assert(self.blocks@.take(self.blocks@.len() as int) =~= self.blocks@);
            }
            let digest = sha(assembled.as_slice());
            if vecs_u8_equal(&self.hash, &digest) {
                self.clear_block_data();
                self.is_complete = true;
                StoreOutcome::Verified(assembled)
            } else {
                self.clear_block_data();
                StoreOutcome::HashMismatch
            }
        } else {
            StoreOutcome::Incomplete
        }
    }

    /// The first block still lacking its payload, in ascending block order;
    /// nothing when the piece is complete or fully populated pending its
    /// hash check.
    pub fn next_block_to_request(&self) -> (r: Option<&Block>)
        ensures
            self.is_complete ==> r is None,
            !self.is_complete ==> match first_missing(self.blocks@, 0) {
                Some(i) => r matches Some(b) && *b == self.blocks@[i],
                None => r is None,
            },
    {
        if self.is_complete {
            return None;
        }
        let mut i: usize = 0;
        while i < self.blocks.len()
            invariant
                !self.is_complete,
                i <= self.blocks@.len(),
                forall|j: int| 0 <= j < i ==> (#[trigger] self.blocks@[j]).data is Some,
            decreases self.blocks@.len() - i,
        {
            if self.blocks[i].data.is_none() {
                proof {
                    lemma_first_missing_from(self.blocks@, i as int);
                }
                return Some(&self.blocks[i]);
            }
            i += 1;
        }
        proof {
            lemma_first_missing_from(self.blocks@, self.blocks@.len() as int);
        }
        None
    }

    /// Whether every block of the piece has its payload.
    pub fn have_all_blocks(&self) -> (r: bool)
        ensures
            r == self.all_blocks_present(),
    {
        let mut i: usize = 0;
        while i < self.blocks.len()
            invariant
                i <= self.blocks@.len(),
                forall|j: int| 0 <= j < i ==> (#[trigger] self.blocks@[j]).data is Some,
            decreases self.blocks@.len() - i,
        {
            if self.blocks[i].data.is_none() {
                return false;
            }
            i += 1;
        }
        true
    }

    /// Releases every block payload, leaving the ledger itself intact.
    pub fn clear_block_data(&mut self)
        ensures
            final(self).length == old(self).length,
            final(self).piece_length == old(self).piece_length,
            final(self).index == old(self).index,
            final(self).hash == old(self).hash,
            final(self).is_complete == old(self).is_complete,
            final(self).blocks@.len() == old(self).blocks@.len(),
            forall|i: int|
                0 <= i < old(self).blocks@.len() ==> (#[trigger] final(self).blocks@[i]).index
                    == old(self).blocks@[i].index && final(self).blocks@[i].length == old(
                    self,
                ).blocks@[i].length,
            final(self).no_block_data(),
    {
        let mut i: usize = 0;
        while i < self.blocks.len()
            invariant
                self.length == old(self).length,
                self.piece_length == old(self).piece_length,
                self.index == old(self).index,
                self.hash == old(self).hash,
                self.is_complete == old(self).is_complete,
                self.blocks@.len() == old(self).blocks@.len(),
                i <= self.blocks@.len(),
                forall|j: int|
                    0 <= j < old(self).blocks@.len() ==> (#[trigger] self.blocks@[j]).index == old(
                        self,
                    ).blocks@[j].index && self.blocks@[j].length == old(self).blocks@[j].length,
                forall|j: int| 0 <= j < i ==> (#[trigger] self.blocks@[j]).data is None,
            decreases self.blocks@.len() - i,
        {
            let idx = self.blocks[i].index;
            let len = self.blocks[i].length;
            self.blocks[i] = Block { index: idx, length: len, data: None };
            i += 1;
        }
    }
}

impl PartialEq for Piece {
    /// Pieces are equal when every field agrees, blocks and hash compared by
    /// content.
    fn eq(&self, other: &Piece) -> (r: bool) {
        if self.length != other.length || self.piece_length != other.piece_length || self.index
            != other.index || self.is_complete != other.is_complete {
            return false;
        }
        if !vecs_u8_equal(&self.hash, &other.hash) {
            return false;
        }
        if self.blocks.len() != other.blocks.len() {
            return false;
        }
        let mut i: usize = 0;
        while i < self.blocks.len()
            invariant
                i <= self.blocks@.len(),
                self.blocks@.len() == other.blocks@.len(),
                forall|j: int|
                    0 <= j < i ==> spec_block_eq(
                        #[trigger] self.blocks@[j],
                        other.blocks@[j],
                    ),
            decreases self.blocks@.len() - i,
        {
            if !(self.blocks[i] == other.blocks[i]) {
                return false;
            }
            i += 1;
        }
        true
    }
}

impl vstd::std_specs::cmp::PartialEqSpecImpl for Piece {
    open spec fn obeys_eq_spec() -> bool {
        true
    }

    open spec fn eq_spec(&self, other: &Piece) -> bool {
        &&& self.length == other.length
        &&& self.piece_length == other.piece_length
        &&& self.index == other.index
        &&& self.is_complete == other.is_complete
        &&& self.hash@ == other.hash@
        &&& self.blocks@.len() == other.blocks@.len()
        &&& forall|i: int|
            0 <= i < self.blocks@.len() ==> spec_block_eq(
                #[trigger] self.blocks@[i],
                other.blocks@[i],
            )
    }
}

} // verus!
