//! The shared torrent store: the metainfo, this client's peer id, the piece
//! ledger, and one notification endpoint per live peer session. The output
//! file itself is held by the caller, so a verified piece comes back as a
//! write command carrying the bytes and their file offset.

use vstd::prelude::*;

use std::sync::mpsc::Sender;

use crate::block::Block;
use crate::hash::sha1_of;
use crate::ipc::IpcMessage;
use crate::metainfo::MetaInfo;
use crate::piece::{first_missing, lemma_assembled_length, lemma_first_missing_props,
    spec_all_present, spec_concat_blocks, spec_sized, Piece, StoreOutcome};

verus! {

/// The sending endpoint of a standard channel, as registered by sessions.
#[verifier::external_type_specification]
#[verifier::external_body]
#[verifier::reject_recursive_types(T)]
pub struct ExSender<T>(Sender<T>);

/// Relies on `std::sync::mpsc::Sender::send`: delivers the notice to the
/// channel's receiver when one still exists and never blocks. A failed send
/// only means the endpoint belongs to a terminated session, so it is
/// ignored.
#[verifier::external_body]
fn send_cancel(channel: &Sender<IpcMessage>, piece_index: u32, block_index: u32) {
    let _ = channel.send(IpcMessage::CancelRequest(piece_index, block_index));
}

/// A verified piece's assembled bytes and the file offset they belong at.
#[derive(Debug)]
pub struct PieceWrite {
    pub offset: u64,
    pub data: Vec<u8>,
}

/// What storing a block did to the torrent: the file write the caller must
/// perform when the piece just verified, and whether every piece is now
/// complete.
#[derive(Debug)]
pub struct StoreResult {
    pub write: Option<PieceWrite>,
    pub torrent_complete: bool,
}

/// The entire torrent: metainfo from the `.torrent` file, the client's peer
/// id, the pieces of the payload, and the registered notification endpoints.
#[derive(Debug)]
pub struct Torrent {
    pub metainfo: MetaInfo,
    pub peer_id: String,
    pub pieces: Vec<Piece>,
    pub peer_channels: Vec<Sender<IpcMessage>>,
}

/// The first `(piece, block)` pair the peer can serve, scanning pieces from
/// index `k` up: the piece must be claimed by the peer and not complete, and
/// the block is the piece's first without a payload.
pub open spec fn spec_next_request(pieces: Seq<Piece>, have: Seq<bool>, k: int) -> Option<
    (int, int),
>
    decreases pieces.len() - k,
    when 0 <= k <= pieces.len() && pieces.len() <= have.len()
{
    if k >= pieces.len() {
        None
    } else {
        let offer = if have[k] && !pieces[k].is_complete {
            first_missing(pieces[k].blocks@, 0)
        } else {
            None
        };
        match offer {
            Some(b) => Some((k, b)),
            None => spec_next_request(pieces, have, k + 1),
        }
    }
}

impl Torrent {
    /// Pieces are indexed in order, sized by the metainfo (uniform piece
    /// length, short last piece), and carry the metainfo's hashes.
    pub open spec fn wf(self) -> bool {
        &&& self.metainfo.info.wf()
        &&& self.pieces@.len() == self.metainfo.info.num_pieces
        &&& forall|i: int| 0 <= i < self.pieces@.len() ==> (#[trigger] self.pieces@[i]).wf()
        &&& forall|i: int| 0 <= i < self.pieces@.len() ==> (#[trigger] self.pieces@[i]).index == i
        &&& forall|i: int|
            0 <= i < self.pieces@.len() ==> (#[trigger] self.pieces@[i]).piece_length
                == self.metainfo.info.piece_length
        &&& forall|i: int|
            0 <= i < self.pieces@.len() ==> (#[trigger] self.pieces@[i]).length
                == self.metainfo.info.spec_piece_length(i)
        &&& forall|i: int|
            0 <= i < self.pieces@.len() ==> (#[trigger] self.pieces@[i]).hash@
                == self.metainfo.info.pieces@[i]@
    }

    /// Every piece of the torrent is complete.
    pub open spec fn spec_is_complete(self) -> bool {
        forall|i: int| 0 <= i < self.pieces@.len() ==> (#[trigger] self.pieces@[i]).is_complete
    }

    /// A store over the given metainfo: one piece per hash, each of the
    /// uniform piece length except the last, which takes the remainder of
    /// the payload; no piece complete, no block data held.
    pub fn new(peer_id: String, metainfo: MetaInfo) -> (r: Torrent)
        requires
            metainfo.info.wf(),
        ensures
            r.wf(),
            r.metainfo == metainfo,
            r.peer_id == peer_id,
            r.pieces@.len() == metainfo.info.num_pieces,
            forall|i: int|
                0 <= i < r.pieces@.len() ==> !(#[trigger] r.pieces@[i]).is_complete
                    && r.pieces@[i].no_block_data(),
            r.peer_channels@.len() == 0,
    {
        let num_pieces: usize = metainfo.info.pieces.len();
        let piece_length: u32 = metainfo.info.piece_length;
        proof {
            assert((metainfo.info.num_pieces - 1) * metainfo.info.piece_length + metainfo.info.piece_length
                == metainfo.info.num_pieces * metainfo.info.piece_length) by (nonlinear_arith);
            assert((num_pieces - 1) * (piece_length as int) <= 0xFFFF_FFFFu32 * 0xFFFF_FFFFu32)
                by (nonlinear_arith)
                requires
                    0 <= num_pieces - 1 <= 0xFFFF_FFFFu32,
                    0 <= piece_length <= 0xFFFF_FFFFu32,
            ;
        }
        let last_length: u32 = (metainfo.info.length - (num_pieces as u64 - 1) * (piece_length
            as u64)) as u32;
        let mut pieces: Vec<Piece> = Vec::new();
        let mut i: usize = 0;
        while i < num_pieces
            invariant
                metainfo.info.wf(),
                num_pieces == metainfo.info.num_pieces,
                piece_length == metainfo.info.piece_length,
                last_length == metainfo.info.spec_piece_length(num_pieces - 1),
                i <= num_pieces,
                pieces@.len() == i,
                forall|j: int| 0 <= j < i ==> (#[trigger] pieces@[j]).wf(),
                forall|j: int| 0 <= j < i ==> (#[trigger] pieces@[j]).index == j,
                forall|j: int|
                    0 <= j < i ==> (#[trigger] pieces@[j]).piece_length
                        == metainfo.info.piece_length,
                forall|j: int|
                    0 <= j < i ==> (#[trigger] pieces@[j]).length
                        == metainfo.info.spec_piece_length(j),
                forall|j: int|
                    0 <= j < i ==> (#[trigger] pieces@[j]).hash@ == metainfo.info.pieces@[j]@,
                forall|j: int|
                    0 <= j < i ==> !(#[trigger] pieces@[j]).is_complete
                        && pieces@[j].no_block_data(),
            decreases num_pieces - i,
        {
            let length: u32 = if i < num_pieces - 1 {
                piece_length
            } else {
                last_length
            };
            let hash: Vec<u8> = vstd::slice::slice_to_vec(metainfo.info.pieces[i].as_slice());
            let piece = Piece::new(length, i as u32, piece_length, hash);
            pieces.push(piece);
            i += 1;
        }
        Torrent { metainfo, peer_id, pieces, peer_channels: Vec::new() }
    }

    /// Given a piece index, a block index and the block's bytes, stores the
    /// block in its piece. When that completes and verifies the piece, the
    /// result carries the bytes to write at `piece_index · piece_length`,
    /// whose SHA-1 digest equals the metainfo's hash for the piece, and a
    /// cancel notice goes out to every registered peer channel. A block for
    /// an already complete piece is a duplicate and changes nothing. The
    /// result also reports whether the whole torrent is now complete.
    pub fn store(&mut self, piece_index: u32, block_index: u32, data: Vec<u8>) -> (r: StoreResult)
        requires
            old(self).wf(),
            (piece_index as int) < old(self).pieces@.len(),
            (block_index as int) < old(self).pieces@[piece_index as int].blocks@.len(),
        ensures
            final(self).wf(),
            final(self).metainfo == old(self).metainfo,
            final(self).peer_id == old(self).peer_id,
            final(self).pieces@.len() == old(self).pieces@.len(),
            forall|i: int|
                0 <= i < old(self).pieces@.len() && i != piece_index ==> final(self).pieces@[i]
                    == old(self).pieces@[i],
            old(self).pieces@[piece_index as int].is_complete ==> final(self).pieces@ == old(
                self,
            ).pieces@ && r.write is None,
            r.torrent_complete == final(self).spec_is_complete(),
            ({
                let p = old(self).pieces@[piece_index as int];
                let updated = p.blocks@.update(
                    block_index as int,
                    Block {
                        index: p.blocks@[block_index as int].index,
                        length: p.blocks@[block_index as int].length,
                        data: Some(data),
                    },
                );
                !p.is_complete ==> {
                    &&& (final(self).pieces@[piece_index as int].is_complete <==> spec_all_present(
                        updated,
                    ) && sha1_of(spec_concat_blocks(updated)) == p.hash@)
                    &&& match r.write {
                        Some(w) => {
                            &&& final(self).pieces@[piece_index as int].is_complete
                            &&& w.offset == piece_index * old(self).metainfo.info.piece_length
                            &&& w.data@ == spec_concat_blocks(updated)
                            &&& sha1_of(w.data@) == old(self).metainfo.info.pieces@[piece_index
                                as int]@
                            &&& spec_sized(updated) ==> w.data@.len() == p.length
                        },
                        None => !final(self).pieces@[piece_index as int].is_complete,
                    }
                }
            }),
    {
        if self.pieces[piece_index as usize].is_complete {
            let torrent_complete = self.is_complete();
            return StoreResult { write: None, torrent_complete };
        }
        let ghost p_old = self.pieces@[piece_index as int];
        let outcome = self.pieces[piece_index as usize].store(block_index, data);
        match outcome {
            StoreOutcome::Verified(bytes) => {
                proof {
                    let updated = p_old.blocks@.update(
                        block_index as int,
                        Block {
                            index: p_old.blocks@[block_index as int].index,
                            length: p_old.blocks@[block_index as int].length,
                            data: Some(data),
                        },
                    );
                    if spec_sized(updated) {
                        lemma_assembled_length(updated, p_old.length);
                    }
                    assert((piece_index as int) * (self.metainfo.info.piece_length as int)
                        <= 0xFFFF_FFFFu32 * 0xFFFF_FFFFu32) by (nonlinear_arith)
                        requires
                            0 <= piece_index <= 0xFFFF_FFFFu32,
                            0 <= self.metainfo.info.piece_length <= 0xFFFF_FFFFu32,
                    ;
                }
                let offset: u64 = piece_index as u64 * self.metainfo.info.piece_length as u64;
                let ghost snap = *self;
                let mut c: usize = 0;
                while c < self.peer_channels.len()
                    invariant
                        *self == snap,
                        c <= self.peer_channels@.len(),
                    decreases self.peer_channels@.len() - c,
                {
                    send_cancel(&self.peer_channels[c], piece_index, block_index);
                    c += 1;
                }
                let torrent_complete = self.is_complete();
                StoreResult { write: Some(PieceWrite { offset, data: bytes }), torrent_complete }
            },
            StoreOutcome::Incomplete => {
                let torrent_complete = self.is_complete();
                StoreResult { write: None, torrent_complete }
            },
            StoreOutcome::HashMismatch => {
                let torrent_complete = self.is_complete();
                StoreResult { write: None, torrent_complete }
            },
        }
    }

    /// The next block to ask the peer for: pieces are scanned in ascending
    /// index; the first piece the peer claims and that is not complete
    /// offers its first missing block. Never a block of a complete piece,
    /// never a piece the peer has not claimed.
    pub fn next_block_to_request(&self, peer_has_pieces: &[bool]) -> (r: Option<(u32, u32, u32)>)
        requires
            self.wf(),
            peer_has_pieces@.len() >= self.pieces@.len(),
        ensures
            match r {
                Some(triple) => {
                    &&& spec_next_request(self.pieces@, peer_has_pieces@, 0) == Some(
                        (triple.0 as int, triple.1 as int),
                    )
                    &&& triple.0 < self.pieces@.len()
                    &&& peer_has_pieces@[triple.0 as int]
                    &&& !self.pieces@[triple.0 as int].is_complete
                    &&& triple.1 < self.pieces@[triple.0 as int].blocks@.len()
                    &&& self.pieces@[triple.0 as int].blocks@[triple.1 as int].data is None
                    &&& triple.2 == self.pieces@[triple.0 as int].blocks@[triple.1 as int].length
                },
                None => spec_next_request(self.pieces@, peer_has_pieces@, 0) is None,
            },
    {
        let mut i: usize = 0;
        while i < self.pieces.len()
            invariant
                self.wf(),
                peer_has_pieces@.len() >= self.pieces@.len(),
                i <= self.pieces@.len(),
                spec_next_request(self.pieces@, peer_has_pieces@, 0) == spec_next_request(
                    self.pieces@,
                    peer_has_pieces@,
                    i as int,
                ),
            decreases self.pieces@.len() - i,
        {
            proof {
                lemma_first_missing_props(self.pieces@[i as int].blocks@, 0);
            }
            if peer_has_pieces[i] {
                match self.pieces[i].next_block_to_request() {
                    Some(block) => {
                        proof {
                            assert(self.pieces@[i as int].wf());
                        }
                        return Some((self.pieces[i].index, block.index, block.length));
                    },
                    None => {},
                }
            }
            i += 1;
        }
        None
    }

    /// Whether every piece of the torrent has been retrieved and verified.
    pub fn is_complete(&self) -> (r: bool)
        ensures
            r == self.spec_is_complete(),
    {
        let mut i: usize = 0;
        while i < self.pieces.len()
            invariant
                i <= self.pieces@.len(),
                forall|j: int| 0 <= j < i ==> (#[trigger] self.pieces@[j]).is_complete,
            decreases self.pieces@.len() - i,
        {
            if !self.pieces[i].is_complete {
                return false;
            }
            i += 1;
        }
        true
    }

    /// Registers a session's notification endpoint; everything else in the
    /// store is untouched.
    pub fn register_peer(&mut self, channel: Sender<IpcMessage>)
        ensures
            final(self).metainfo == old(self).metainfo,
            final(self).peer_id == old(self).peer_id,
            final(self).pieces == old(self).pieces,
            final(self).peer_channels@ == old(self).peer_channels@.push(channel),
    {
        self.peer_channels.push(channel);
    }
}

} // verus!
