//! The per-connection session state machine. A session owns its peer record
//! and reacts to one decoded wire message at a time: the caller feeds
//! messages and notifications in and performs the returned actions — sends,
//! and file writes for verified pieces — on its socket and output file.

use vstd::prelude::*;

use vstd::arithmetic::div_mod::{lemma_fundamental_div_mod, lemma_mod_bound};

use crate::block::Block;
use crate::hash::sha1_of;
use crate::ipc::IpcMessage;
use crate::message::{Message, MessageModel, ProtocolError};
use crate::peer::Peer;
use crate::piece::{lemma_block_offset_bound, spec_all_present, spec_concat_blocks, spec_sized,
    BLOCK_SIZE};
use crate::torrent::{spec_next_request, PieceWrite, Torrent};
use crate::util::bytes_equal;

verus! {

/// What the caller must do after a step of the state machine, in order.
#[derive(Debug)]
pub enum Action {
    /// Transmit the message on the session's socket.
    Send(Message),
    /// Write the verified piece bytes at their offset in the output file.
    Write(PieceWrite),
}

/// One step of the session: the actions to perform, and whether the whole
/// download just finished, which ends the session cleanly.
#[derive(Debug)]
pub struct Step {
    pub actions: Vec<Action>,
    pub done: bool,
}

/// A connection-scoped session: the peer record with its registered protocol
/// flags, whether the peer has declared interest in us, and the blocks whose
/// cancel notices have arrived, to be dropped as duplicates if they still
/// come in.
#[derive(Debug)]
pub struct Session {
    pub peer: Peer,
    pub peer_interested: bool,
    pub cancelled: Vec<(u32, u32)>,
}

/// The ASCII bytes of "BitTorrent protocol".
pub open spec fn spec_protocol_bytes() -> Seq<u8> {
    seq![
        66u8, 105, 116, 84, 111, 114, 114, 101, 110, 116, 32, 112, 114, 111, 116, 111, 99, 111,
        108,
    ]
}

/// The 68-byte handshake: pstrlen 19, "BitTorrent protocol", eight zero
/// reserved bytes, the info-hash, then this client's peer id.
pub open spec fn spec_handshake(info_hash: Seq<u8>, peer_id: Seq<u8>) -> Seq<u8> {
    seq![19u8] + spec_protocol_bytes() + seq![0u8, 0, 0, 0, 0, 0, 0, 0] + info_hash + peer_id
}

/// Builds the handshake transmitted at session start.
pub fn handshake_message(info_hash: &Vec<u8>, peer_id: &[u8]) -> (r: Vec<u8>)
    requires
        info_hash@.len() == 20,
        peer_id@.len() == 20,
    ensures
        r@ == spec_handshake(info_hash@, peer_id@),
        r@.len() == 68,
{
    let mut message: Vec<u8> = Vec::new();
    message.push(19);
    let mut protocol: Vec<u8> = vec![
        66u8, 105, 116, 84, 111, 114, 114, 101, 110, 116, 32, 112, 114, 111, 116, 111, 99, 111,
        108,
    ];
    message.append(&mut protocol);
    let mut reserved: Vec<u8> = vec![0u8; 8];
    message.append(&mut reserved);
    message.extend_from_slice(info_hash.as_slice());
    message.extend_from_slice(peer_id);
    proof {
        assert(message@ =~= spec_handshake(info_hash@, peer_id@));
    }
    message
}

/// Checks the info-hash a peer presented in its handshake against the
/// torrent's. A mismatch is the fatal handshake fault; the reserved bytes
/// are ignored.
pub fn verify_handshake(received_info_hash: &[u8], expected: &Vec<u8>) -> (r: Result<
    (),
    ProtocolError,
>)
    ensures
        r is Ok <==> received_info_hash@ == expected@,
        r matches Err(e) ==> e == ProtocolError::InfoHashMismatch,
{
    if bytes_equal(received_info_hash, expected.as_slice()) {
        Ok(())
    } else {
        Err(ProtocolError::InfoHashMismatch)
    }
}

/// The availability bit for piece `i` of a bitfield payload: bit `7 - i % 8`
/// of byte `⌊i / 8⌋`, high bit first.
pub open spec fn spec_bitfield_bit(bytes: Seq<u8>, i: int) -> bool {
    bytes[i / 8] & (1u8 << ((7 - i % 8) as u8)) != 0
}

/// Installs a bitfield payload in an availability vector: entry `i` becomes
/// bit `7 - i % 8` of byte `⌊i / 8⌋`. Bits beyond the vector's length — the
/// padding of the last byte — are ignored.
pub fn apply_bitfield(have: &mut Vec<bool>, bytes: &[u8])
    requires
        bytes@.len() * 8 >= old(have)@.len(),
    ensures
        final(have)@.len() == old(have)@.len(),
        forall|i: int|
            0 <= i < old(have)@.len() ==> final(have)@[i] == spec_bitfield_bit(bytes@, i),
{
    let n = have.len();
    let mut i: usize = 0;
    while i < n
        invariant
            have@.len() == n,
            n <= bytes@.len() * 8,
            i <= n,
            forall|j: int| 0 <= j < i ==> have@[j] == spec_bitfield_bit(bytes@, j),
        decreases n - i,
    {
        proof {
            lemma_fundamental_div_mod(i as int, 8);
            lemma_mod_bound(i as int, 8);
            assert(8 * (i as int / 8) <= i as int);
        }
        let byte = bytes[i / 8];
        let shift: u8 = 7 - (i % 8) as u8;
        let mask: u8 = 1u8 << shift;
        let value = byte & mask != 0;
        have[i] = value;
        i += 1;
    }
}

/// The request to transmit on "attempt next request": the store's next
/// block for this peer, if any — and nothing while we are choked, since a
/// choked side must not issue requests.
pub open spec fn spec_request_action(s: Session, t: Torrent) -> Option<MessageModel> {
    if s.peer.choked == Some(false) {
        match spec_next_request(t.pieces@, s.spec_have(), 0) {
            Some(pb) => Some(
                MessageModel::Request(
                    pb.0 as u32,
                    (pb.1 * BLOCK_SIZE) as u32,
                    t.pieces@[pb.0].blocks@[pb.1].length,
                ),
            ),
            None => None,
        }
    } else {
        None
    }
}

/// The actions from `base` on are exactly the attempted request: one `Send`
/// of the request when the store offers a block, nothing otherwise.
pub open spec fn spec_sent_request(s: Session, t: Torrent, acts: Seq<Action>, base: int) -> bool {
    match spec_request_action(s, t) {
        Some(mm) => acts.len() == base + 1 && (acts[base] matches Action::Send(m) && m@ == mm),
        None => acts.len() == base,
    }
}

/// Interest is declared at most once: the first Bitfield or Have flips the
/// flag and sends `Interested`; afterwards nothing is sent.
pub open spec fn spec_declared_interest(s0: Session, s1: Session, acts: Seq<Action>) -> bool {
    if s0.peer.interested == Some(false) {
        &&& s1.peer.interested == Some(true)
        &&& acts.len() == 1
        &&& acts[0] == Action::Send(Message::Interested)
    } else {
        &&& s1.peer.interested == s0.peer.interested
        &&& acts.len() == 0
    }
}

/// Everything of the session except the choke flag is unchanged.
pub open spec fn spec_same_but_choked(s0: Session, s1: Session) -> bool {
    &&& s1.peer.ip == s0.peer.ip
    &&& s1.peer.port == s0.peer.port
    &&& s1.peer.have == s0.peer.have
    &&& s1.peer.interested == s0.peer.interested
    &&& s1.cancelled == s0.cancelled
    &&& s1.peer_interested == s0.peer_interested
}

/// Everything of the session except the availability vector and our
/// interest flag is unchanged.
pub open spec fn spec_same_but_have_interest(s0: Session, s1: Session) -> bool {
    &&& s1.peer.ip == s0.peer.ip
    &&& s1.peer.port == s0.peer.port
    &&& s1.peer.choked == s0.peer.choked
    &&& s1.cancelled == s0.cancelled
    &&& s1.peer_interested == s0.peer_interested
}

/// The message is accepted syntactically but acted upon by nothing.
pub open spec fn spec_ignored(
    s0: Session,
    t0: Torrent,
    s1: Session,
    t1: Torrent,
    step: Step,
) -> bool {
    &&& s1 == s0
    &&& t1 == t0
    &&& step.actions@.len() == 0
    &&& !step.done
}

/// Whether the message's indices fit the torrent: a bitfield payload must
/// cover the piece count, a `Have` index must name a piece, and a `Piece`
/// message must name a piece and one of its blocks.
pub open spec fn spec_msg_ok(t: Torrent, message: Message) -> bool {
    match message {
        Message::Bitfield(bytes) => bytes@.len() * 8 >= t.pieces@.len(),
        Message::Have(index) => (index as int) < t.pieces@.len(),
        Message::Piece(p, o, _) => (p as int) < t.pieces@.len() && ((o / BLOCK_SIZE) as int)
            < t.pieces@[p as int].blocks@.len(),
        _ => true,
    }
}

/// The fault reported for a message whose indices do not fit the torrent.
pub open spec fn spec_msg_error(message: Message) -> ProtocolError {
    match message {
        Message::Bitfield(_) => ProtocolError::TruncatedFrame,
        _ => ProtocolError::BadIndex,
    }
}

/// The block ledger of piece `p` after installing `data` in block `b`.
pub open spec fn spec_updated_blocks(t0: Torrent, p: u32, b: u32, data: Vec<u8>) -> Seq<Block> {
    let piece = t0.pieces@[p as int];
    piece.blocks@.update(
        b as int,
        Block {
            index: piece.blocks@[b as int].index,
            length: piece.blocks@[b as int].length,
            data: Some(data),
        },
    )
}

/// The store's reaction to the block: other pieces untouched, and piece `p`
/// complete exactly when the installed payload filled it and the SHA-1
/// digest of the assembled bytes matches the piece's hash.
pub open spec fn spec_store_effect(t0: Torrent, t1: Torrent, p: u32, b: u32, data: Vec<u8>) -> bool {
    let updated = spec_updated_blocks(t0, p, b, data);
    &&& t1.pieces@.len() == t0.pieces@.len()
    &&& forall|i: int| 0 <= i < t0.pieces@.len() && i != p ==> t1.pieces@[i] == t0.pieces@[i]
    &&& (t1.pieces@[p as int].is_complete <==> spec_all_present(updated) && sha1_of(
        spec_concat_blocks(updated),
    ) == t0.pieces@[p as int].hash@)
}

/// The state-machine transition of `handle_message`, message by message.
pub open spec fn spec_stepped(
    s0: Session,
    t0: Torrent,
    message: Message,
    s1: Session,
    t1: Torrent,
    step: Step,
) -> bool {
    match message {
        Message::KeepAlive => spec_ignored(s0, t0, s1, t1, step),
        Message::Choke => {
            &&& s1.peer.choked == Some(true)
            &&& spec_same_but_choked(s0, s1)
            &&& t1 == t0
            &&& step.actions@.len() == 0
            &&& !step.done
        },
        Message::Unchoke => {
            &&& s1.peer.choked == Some(false)
            &&& spec_same_but_choked(s0, s1)
            &&& t1 == t0
            &&& !step.done
            &&& spec_sent_request(s1, t1, step.actions@, 0)
        },
        Message::Interested => {
            &&& s1.peer == s0.peer
            &&& s1.cancelled == s0.cancelled
            &&& s1.peer_interested
            &&& t1 == t0
            &&& step.actions@.len() == 0
            &&& !step.done
        },
        Message::NotInterested => {
            &&& s1.peer == s0.peer
            &&& s1.cancelled == s0.cancelled
            &&& !s1.peer_interested
            &&& t1 == t0
            &&& step.actions@.len() == 0
            &&& !step.done
        },
        Message::Have(index) => {
            &&& (s1.peer.have matches Some(h) && h@ == s0.spec_have().update(index as int, true))
            &&& spec_same_but_have_interest(s0, s1)
            &&& t1 == t0
            &&& !step.done
            &&& spec_declared_interest(s0, s1, step.actions@)
        },
        Message::Bitfield(bytes) => {
            &&& (s1.peer.have matches Some(h) && h@.len() == s0.spec_have().len() && (forall|
                i: int,
            |
                0 <= i < h@.len() ==> h@[i] == spec_bitfield_bit(bytes@, i)))
            &&& spec_same_but_have_interest(s0, s1)
            &&& t1 == t0
            &&& !step.done
            &&& spec_declared_interest(s0, s1, step.actions@)
        },
        Message::Request(_, _, _) => spec_ignored(s0, t0, s1, t1, step),
        Message::Cancel => spec_ignored(s0, t0, s1, t1, step),
        Message::Port => spec_ignored(s0, t0, s1, t1, step),
        Message::Piece(p, o, data) => {
            let b = o / BLOCK_SIZE;
            &&& s1 == s0
            &&& step.done == t1.spec_is_complete()
            &&& t1.metainfo == t0.metainfo
            &&& if s0.spec_cancelled(p, b) || t0.pieces@[p as int].is_complete {
                &&& t1.pieces@ == t0.pieces@
                &&& if step.done {
                    step.actions@.len() == 0
                } else {
                    spec_sent_request(s1, t1, step.actions@, 0)
                }
            } else {
                let updated = spec_updated_blocks(t0, p, b, data);
                &&& spec_store_effect(t0, t1, p, b, data)
                &&& if t1.pieces@[p as int].is_complete {
                    &&& step.actions@.len() >= 1
                    &&& (step.actions@[0] matches Action::Write(w) && w.offset == p * t0
                        .metainfo.info.piece_length && w.data@ == spec_concat_blocks(updated)
                        && sha1_of(w.data@) == t0.metainfo.info.pieces@[p as int]@
                        && (spec_sized(updated) ==> w.data@.len() == t0.pieces@[p as int].length))
                    &&& if step.done {
                        step.actions@.len() == 1
                    } else {
                        spec_sent_request(s1, t1, step.actions@, 1)
                    }
                } else {
                    if step.done {
                        step.actions@.len() == 0
                    } else {
                        spec_sent_request(s1, t1, step.actions@, 0)
                    }
                }
            }
        },
    }
}

impl Session {
    /// The availability vector the session keeps for its peer.
    pub open spec fn spec_have(self) -> Seq<bool> {
        self.peer.have.unwrap()@
    }

    /// The peer record's protocol flags are registered, and the availability
    /// vector has one bit per piece of the torrent.
    pub open spec fn wf(self, torrent: Torrent) -> bool {
        &&& self.peer.have is Some
        &&& self.peer.choked is Some
        &&& self.peer.interested is Some
        &&& self.spec_have().len() == torrent.pieces@.len()
    }

    /// A session for the peer: registers the peer's protocol flags against
    /// the piece count — post-handshake defaults: nothing claimed, we are
    /// choked, not interested — with no cancel notices received yet.
    pub fn new(peer: Peer, num_pieces: usize) -> (r: Session)
        ensures
            r.peer.ip == peer.ip,
            r.peer.port == peer.port,
            peer.have is None ==> r.spec_have() =~= Seq::new(num_pieces as nat, |i: int| false),
            peer.have is Some ==> r.peer.have == peer.have,
            peer.choked is None ==> r.peer.choked == Some(true),
            peer.choked is Some ==> r.peer.choked == peer.choked,
            peer.interested is None ==> r.peer.interested == Some(false),
            peer.interested is Some ==> r.peer.interested == peer.interested,
            r.peer.have is Some && r.peer.choked is Some && r.peer.interested is Some,
            !r.peer_interested,
            r.cancelled@ =~= Seq::<(u32, u32)>::empty(),
    {
        let mut registered = peer;
        registered.register(num_pieces);
        Session { peer: registered, peer_interested: false, cancelled: Vec::new() }
    }

    /// Whether a cancel notice for this piece and block has been received.
    pub open spec fn spec_cancelled(self, piece_index: u32, block_index: u32) -> bool {
        exists|i: int|
            0 <= i < self.cancelled@.len() && self.cancelled@[i] == (piece_index, block_index)
    }

    /// Scans the received cancel notices for this piece and block.
    pub fn is_cancelled(&self, piece_index: u32, block_index: u32) -> (r: bool)
        ensures
            r == self.spec_cancelled(piece_index, block_index),
    {
        let mut i: usize = 0;
        while i < self.cancelled.len()
            invariant
                i <= self.cancelled@.len(),
                forall|j: int|
                    0 <= j < i ==> (#[trigger] self.cancelled@[j]) != (piece_index, block_index),
            decreases self.cancelled@.len() - i,
        {
            let entry = self.cancelled[i];
            if entry.0 == piece_index && entry.1 == block_index {
                return true;
            }
            i += 1;
        }
        false
    }

    /// Notes a cancel notice: the block was stored and verified through
    /// another session, so a later arriving copy of it is a duplicate.
    pub fn handle_ipc(&mut self, message: IpcMessage)
        ensures
            final(self).peer == old(self).peer,
            final(self).peer_interested == old(self).peer_interested,
            match message {
                IpcMessage::CancelRequest(p, b) => final(self).cancelled@ == old(
                    self,
                ).cancelled@.push((p, b)),
            },
    {
        match message {
            IpcMessage::CancelRequest(piece_index, block_index) => {
                self.cancelled.push((piece_index, block_index));
            },
        }
    }

    /// Asks the store for the next block this peer can serve and shapes it
    /// as a `Request` with the block's byte offset within its piece; nothing
    /// while we are choked or when the store has nothing left for this peer.
    pub fn next_request(&self, torrent: &Torrent) -> (r: Option<Message>)
        requires
            torrent.wf(),
            self.wf(*torrent),
        ensures
            match r {
                Some(m) => spec_request_action(*self, *torrent) == Some(m@),
                None => spec_request_action(*self, *torrent) is None,
            },
    {
        let choked = self.peer.choked.unwrap();
        if choked {
            return None;
        }
        let have = self.peer.have.as_ref().unwrap();
        match torrent.next_block_to_request(have.as_slice()) {
            Some(triple) => {
                let (piece_index, block_index, block_length) = triple;
                proof {
                    assert(torrent.pieces@[piece_index as int].wf());
                    lemma_block_offset_bound(
                        torrent.pieces@[piece_index as int].length,
                        block_index as int,
                    );
                }
                let offset = block_index * BLOCK_SIZE;
                Some(Message::Request(piece_index, offset, block_length))
            },
            None => None,
        }
    }

    /// Declares interest once: flips our `interested` flag and queues the
    /// `Interested` message the first time, does nothing afterwards.
    fn send_interested(&mut self, actions: &mut Vec<Action>)
        requires
            old(self).peer.interested is Some,
        ensures
            final(self).peer.ip == old(self).peer.ip,
            final(self).peer.port == old(self).peer.port,
            final(self).peer.have == old(self).peer.have,
            final(self).peer.choked == old(self).peer.choked,
            final(self).cancelled == old(self).cancelled,
            final(self).peer_interested == old(self).peer_interested,
            spec_declared_interest(*old(self), *final(self), final(actions)@.skip(
                old(actions)@.len() as int,
            )),
            final(actions)@.take(old(actions)@.len() as int) == old(actions)@,
            final(actions)@.len() >= old(actions)@.len(),
    {
        let flag = self.peer.interested.unwrap();
        if !flag {
            self.peer.interested = Some(true);
            let ghost before = actions@;
            actions.push(Action::Send(Message::Interested));
            proof {
                assert(actions@.skip(before.len() as int) =~= seq![
                    Action::Send(Message::Interested),
                ]);
                assert(actions@.take(before.len() as int) =~= before);
            }
        } else {
            proof {
                assert(actions@.skip(actions@.len() as int) =~= Seq::<Action>::empty());
                assert(actions@.take(actions@.len() as int) =~= actions@);
            }
        }
    }

    /// Dispatches one framed message against the shared store, per the
    /// steady-state protocol: record choke and interest flags, install
    /// availability from `Bitfield` and `Have` and declare interest once,
    /// store `Piece` payloads — writing and broadcasting on verification,
    /// dropping duplicates of cancelled blocks — and accept but ignore
    /// `Request`, `Cancel` and `Port`. Fails exactly on indices that do not
    /// fit the torrent, leaving session and store untouched.
    pub fn handle_message(&mut self, torrent: &mut Torrent, message: Message) -> (r: Result<
        Step,
        ProtocolError,
    >)
        requires
            old(torrent).wf(),
            old(self).wf(*old(torrent)),
        ensures
            final(torrent).wf(),
            final(self).wf(*final(torrent)),
            final(torrent).metainfo == old(torrent).metainfo,
            final(torrent).peer_id == old(torrent).peer_id,
            r is Err <==> !spec_msg_ok(*old(torrent), message),
            r matches Err(e) ==> *final(self) == *old(self) && *final(torrent) == *old(torrent)
                && e == spec_msg_error(message),
            r matches Ok(step) ==> spec_stepped(
                *old(self),
                *old(torrent),
                message,
                *final(self),
                *final(torrent),
                step,
            ),
    {
        let mut actions: Vec<Action> = Vec::new();
        match message {
            Message::KeepAlive => Ok(Step { actions, done: false }),
            Message::Choke => {
                self.peer.choked = Some(true);
                Ok(Step { actions, done: false })
            },
            Message::Unchoke => {
                self.peer.choked = Some(false);
                match self.next_request(torrent) {
                    Some(m) => actions.push(Action::Send(m)),
                    None => {},
                }
                Ok(Step { actions, done: false })
            },
            Message::Interested => {
                self.peer_interested = true;
                Ok(Step { actions, done: false })
            },
            Message::NotInterested => {
                self.peer_interested = false;
                Ok(Step { actions, done: false })
            },
            Message::Have(have_index) => {
                if have_index as usize >= torrent.pieces.len() {
                    return Err(ProtocolError::BadIndex);
                }
                let mut have_opt: Option<Vec<bool>> = None;
                core::mem::swap(&mut self.peer.have, &mut have_opt);
                let mut have = have_opt.unwrap();
                have[have_index as usize] = true;
                self.peer.have = Some(have);
                self.send_interested(&mut actions);
                proof {
                    assert(actions@.skip(0) =~= actions@);
                }
                Ok(Step { actions, done: false })
            },
            Message::Bitfield(bytes) => {
                let n = torrent.pieces.len();
                let needed_bytes = n / 8;
                let enough = if n % 8 == 0 {
                    bytes.len() >= needed_bytes
                } else {
                    bytes.len() >= needed_bytes + 1
                };
                proof {
                    lemma_fundamental_div_mod(n as int, 8);
                    lemma_mod_bound(n as int, 8);
                }
                if !enough {
                    return Err(ProtocolError::TruncatedFrame);
                }
                let mut have_opt: Option<Vec<bool>> = None;
                core::mem::swap(&mut self.peer.have, &mut have_opt);
                let mut have = have_opt.unwrap();
                apply_bitfield(&mut have, bytes.as_slice());
                self.peer.have = Some(have);
                self.send_interested(&mut actions);
                proof {
                    assert(actions@.skip(0) =~= actions@);
                }
                Ok(Step { actions, done: false })
            },
            Message::Request(_, _, _) => Ok(Step { actions, done: false }),
            Message::Cancel => Ok(Step { actions, done: false }),
            Message::Port => Ok(Step { actions, done: false }),
            Message::Piece(piece_index, offset, data) => {
                if piece_index as usize >= torrent.pieces.len() {
                    return Err(ProtocolError::BadIndex);
                }
                let block_index = offset / BLOCK_SIZE;
                if block_index as usize >= torrent.pieces[piece_index as usize].blocks.len() {
                    return Err(ProtocolError::BadIndex);
                }
                if self.is_cancelled(piece_index, block_index) {
                    let done = torrent.is_complete();
                    if !done {
                        match self.next_request(torrent) {
                            Some(m) => actions.push(Action::Send(m)),
                            None => {},
                        }
                    }
                    return Ok(Step { actions, done });
                }
                let result = torrent.store(piece_index, block_index, data);
                match result.write {
                    Some(w) => actions.push(Action::Write(w)),
                    None => {},
                }
                if result.torrent_complete {
                    Ok(Step { actions, done: true })
                } else {
                    match self.next_request(torrent) {
                        Some(m) => actions.push(Action::Send(m)),
                        None => {},
                    }
                    Ok(Step { actions, done: false })
                }
            },
        }
    }
}

} // verus!
