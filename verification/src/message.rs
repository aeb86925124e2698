//! The peer wire codec: each message is framed as a 4-byte big-endian length
//! prefix followed, when the length is positive, by a 1-byte type id and a
//! payload. A zero length prefix is the keep-alive. The codec is pure; the
//! round trip between serializing and decoding is proved below.

use vstd::prelude::*;

use crate::util::{be_u32, bytes_to_u32, lemma_u32_be_bytes_round_trip, u32_be_bytes,
    u32_to_bytes, vecs_u8_equal};

verus! {

/// Protocol faults that terminate the owning session: an unknown message id,
/// a frame shorter than its contents require, a handshake whose info-hash is
/// not the expected one, or an index outside the torrent being transferred.
#[derive(Debug, Clone, Copy, PartialEq, Eq, Structural)]
pub enum ProtocolError {
    UnknownId,
    TruncatedFrame,
    InfoHashMismatch,
    BadIndex,
}

/// A peer wire message.
#[derive(Debug)]
pub enum Message {
    KeepAlive,
    Choke,
    Unchoke,
    Interested,
    NotInterested,
    Have(u32),
    Bitfield(Vec<u8>),
    Request(u32, u32, u32),
    Piece(u32, u32, Vec<u8>),
    Cancel,
    Port,
}

/// The mathematical shape of a message: payload bytes as sequences.
pub enum MessageModel {
    KeepAlive,
    Choke,
    Unchoke,
    Interested,
    NotInterested,
    Have(u32),
    Bitfield(Seq<u8>),
    Request(u32, u32, u32),
    Piece(u32, u32, Seq<u8>),
    Cancel,
    Port,
}

impl View for Message {
    type V = MessageModel;

    open spec fn view(&self) -> MessageModel {
        match self {
            Message::KeepAlive => MessageModel::KeepAlive,
            Message::Choke => MessageModel::Choke,
            Message::Unchoke => MessageModel::Unchoke,
            Message::Interested => MessageModel::Interested,
            Message::NotInterested => MessageModel::NotInterested,
            Message::Have(index) => MessageModel::Have(*index),
            Message::Bitfield(bytes) => MessageModel::Bitfield(bytes@),
            Message::Request(index, offset, length) => MessageModel::Request(
                *index,
                *offset,
                *length,
            ),
            Message::Piece(index, offset, data) => MessageModel::Piece(*index, *offset, data@),
            Message::Cancel => MessageModel::Cancel,
            Message::Port => MessageModel::Port,
        }
    }
}

impl MessageModel {
    /// The payload fits behind a 32-bit length prefix.
    pub open spec fn wf(self) -> bool {
        spec_payload(self).len() <= 0xFFFF_FFFF
    }
}

/// The type id and payload of a message, without the length prefix.
/// The keep-alive has no bytes at all.
pub open spec fn spec_payload(m: MessageModel) -> Seq<u8> {
    match m {
        MessageModel::KeepAlive => seq![],
        MessageModel::Choke => seq![0u8],
        MessageModel::Unchoke => seq![1u8],
        MessageModel::Interested => seq![2u8],
        MessageModel::NotInterested => seq![3u8],
        MessageModel::Have(index) => seq![4u8] + u32_be_bytes(index),
        MessageModel::Bitfield(bytes) => seq![5u8] + bytes,
        MessageModel::Request(index, offset, length) => seq![6u8] + u32_be_bytes(index)
            + u32_be_bytes(offset) + u32_be_bytes(length),
        MessageModel::Piece(index, offset, data) => seq![7u8] + u32_be_bytes(index) + u32_be_bytes(
            offset,
        ) + data,
        MessageModel::Cancel => seq![8u8],
        MessageModel::Port => seq![9u8],
    }
}

/// A whole frame: the payload length as four big-endian bytes, then the payload.
pub open spec fn spec_serialize(m: MessageModel) -> Seq<u8> {
    u32_be_bytes(spec_payload(m).len() as u32) + spec_payload(m)
}

/// Parsing a frame body from its type id and the bytes after the id.
/// Ids 0-3, 8 and 9 carry no payload and any trailing bytes are ignored;
/// `Have` reads four bytes, `Request` twelve, `Piece` at least eight.
pub open spec fn spec_parse_body(id: u8, body: Seq<u8>) -> Option<MessageModel> {
    if id == 0 {
        Some(MessageModel::Choke)
    } else if id == 1 {
        Some(MessageModel::Unchoke)
    } else if id == 2 {
        Some(MessageModel::Interested)
    } else if id == 3 {
        Some(MessageModel::NotInterested)
    } else if id == 4 {
        if body.len() >= 4 {
            Some(MessageModel::Have(be_u32(body[0], body[1], body[2], body[3]) as u32))
        } else {
            None
        }
    } else if id == 5 {
        Some(MessageModel::Bitfield(body))
    } else if id == 6 {
        if body.len() >= 12 {
            Some(
                MessageModel::Request(
                    be_u32(body[0], body[1], body[2], body[3]) as u32,
                    be_u32(body[4], body[5], body[6], body[7]) as u32,
                    be_u32(body[8], body[9], body[10], body[11]) as u32,
                ),
            )
        } else {
            None
        }
    } else if id == 7 {
        if body.len() >= 8 {
            Some(
                MessageModel::Piece(
                    be_u32(body[0], body[1], body[2], body[3]) as u32,
                    be_u32(body[4], body[5], body[6], body[7]) as u32,
                    body.skip(8),
                ),
            )
        } else {
            None
        }
    } else if id == 8 {
        Some(MessageModel::Cancel)
    } else if id == 9 {
        Some(MessageModel::Port)
    } else {
        None
    }
}

/// Parsing the bytes after the length prefix: empty means keep-alive,
/// otherwise the first byte is the type id.
pub open spec fn spec_decode_body(body: Seq<u8>) -> Option<MessageModel> {
    if body.len() == 0 {
        Some(MessageModel::KeepAlive)
    } else {
        spec_parse_body(body[0], body.skip(1))
    }
}

/// Parsing a whole frame: four prefix bytes that must equal the length of
/// the rest, then the frame body.
pub open spec fn spec_decode(frame: Seq<u8>) -> Option<MessageModel> {
    if frame.len() >= 4 && frame.len() - 4 == be_u32(frame[0], frame[1], frame[2], frame[3]) {
        spec_decode_body(frame.skip(4))
    } else {
        None
    }
}

/// The fault reported when a frame body does not parse.
pub open spec fn spec_body_error(body: Seq<u8>) -> ProtocolError {
    if body.len() > 0 && body[0] > 9 {
        ProtocolError::UnknownId
    } else {
        ProtocolError::TruncatedFrame
    }
}

impl Message {
    /// Builds the message with the given type id from the bytes that follow
    /// the id. Callers must present a body that parses; `decode_body` is the
    /// total variant.
    pub fn new(id: &u8, body: &[u8]) -> (r: Message)
        requires
            spec_parse_body(*id, body@) is Some,
        ensures
            Some(r@) == spec_parse_body(*id, body@),
    {
        let id_value: u8 = *id;
        if id_value == 0 {
            Message::Choke
        } else if id_value == 1 {
            Message::Unchoke
        } else if id_value == 2 {
            Message::Interested
        } else if id_value == 3 {
            Message::NotInterested
        } else if id_value == 4 {
            Message::Have(bytes_to_u32(body))
        } else if id_value == 5 {
            Message::Bitfield(vstd::slice::slice_to_vec(body))
        } else if id_value == 6 {
            let index = bytes_to_u32(body);
            let offset = bytes_to_u32(vstd::slice::slice_subrange(body, 4, 8));
            let length = bytes_to_u32(vstd::slice::slice_subrange(body, 8, 12));
            Message::Request(index, offset, length)
        } else if id_value == 7 {
            let index = bytes_to_u32(body);
            let offset = bytes_to_u32(vstd::slice::slice_subrange(body, 4, 8));
            let data = vstd::slice::slice_to_vec(
                vstd::slice::slice_subrange(body, 8, body.len()),
            );
            Message::Piece(index, offset, data)
        } else if id_value == 8 {
            Message::Cancel
        } else {
            Message::Port
        }
    }

    /// Parses the bytes of a frame after its length prefix; an empty body is
    /// the keep-alive. Fails exactly when the body does not parse, with
    /// `UnknownId` for an unrecognized type id and `TruncatedFrame` for a
    /// body shorter than its type id requires.
    pub fn decode_body(body: &[u8]) -> (r: Result<Message, ProtocolError>)
        ensures
            match r {
                Ok(m) => spec_decode_body(body@) == Some(m@),
                Err(e) => spec_decode_body(body@) is None && e == spec_body_error(body@),
            },
            r is Err <==> spec_decode_body(body@) is None,
    {
        if body.len() == 0 {
            return Ok(Message::KeepAlive);
        }
        let id: u8 = body[0];
        let rest = vstd::slice::slice_subrange(body, 1, body.len());
        if id > 9 {
            return Err(ProtocolError::UnknownId);
        }
        let needed: usize = if id == 4 {
            4
        } else if id == 6 {
            12
        } else if id == 7 {
            8
        } else {
            0
        };
        if rest.len() < needed {
            return Err(ProtocolError::TruncatedFrame);
        }
        Ok(Message::new(&id, rest))
    }

    /// Parses a whole frame: the 4-byte big-endian length prefix must equal
    /// the number of bytes that follow it.
    pub fn decode(frame: &[u8]) -> (r: Result<Message, ProtocolError>)
        ensures
            match r {
                Ok(m) => spec_decode(frame@) == Some(m@),
                Err(_) => spec_decode(frame@) is None,
            },
            r is Err <==> spec_decode(frame@) is None,
    {
        if frame.len() < 4 {
            return Err(ProtocolError::TruncatedFrame);
        }
        let prefix = bytes_to_u32(frame);
        if frame.len() - 4 != prefix as usize {
            return Err(ProtocolError::TruncatedFrame);
        }
        let body = vstd::slice::slice_subrange(frame, 4, frame.len());
        Message::decode_body(body)
    }

    /// Serializes the message as a frame: the payload length as four
    /// big-endian bytes, then the type id and the payload.
    pub fn serialize(self) -> (r: Vec<u8>)
        requires
            self@.wf(),
        ensures
            r@ == spec_serialize(self@),
            r@.len() == 4 + spec_payload(self@).len(),
    {
        let ghost m = self@;
        let mut payload: Vec<u8> = Vec::new();
        match self {
            Message::KeepAlive => {},
            Message::Choke => payload.push(0),
            Message::Unchoke => payload.push(1),
            Message::Interested => payload.push(2),
            Message::NotInterested => payload.push(3),
            Message::Have(index) => {
                payload.push(4);
                let mut bytes = u32_to_bytes(index);
                payload.append(&mut bytes);
            },
            Message::Bitfield(mut bytes) => {
                payload.push(5);
                payload.append(&mut bytes);
            },
            Message::Request(index, offset, amount) => {
                payload.push(6);
                let mut bytes = u32_to_bytes(index);
                payload.append(&mut bytes);
                let mut bytes = u32_to_bytes(offset);
                payload.append(&mut bytes);
                let mut bytes = u32_to_bytes(amount);
                payload.append(&mut bytes);
            },
            Message::Piece(index, offset, mut data) => {
                payload.push(7);
                let mut bytes = u32_to_bytes(index);
                payload.append(&mut bytes);
                let mut bytes = u32_to_bytes(offset);
                payload.append(&mut bytes);
                payload.append(&mut data);
            },
            Message::Cancel => payload.push(8),
            Message::Port => payload.push(9),
        }
        proof {
            assert(payload@ =~= spec_payload(m));
        }
        let mut size = u32_to_bytes(payload.len() as u32);
        size.append(&mut payload);
        proof {
            assert(size@ =~= spec_serialize(m));
        }
        size
    }
}

/// Round trip: decoding a serialized message yields the message back, and
/// the length prefix of the frame equals the payload length.
pub proof fn lemma_codec_round_trip(m: MessageModel)
    requires
        m.wf(),
    ensures
        spec_decode(spec_serialize(m)) == Some(m),
        spec_serialize(m).len() == 4 + spec_payload(m).len(),
        spec_serialize(m).subrange(0, 4) =~= u32_be_bytes(spec_payload(m).len() as u32),
{
    let payload = spec_payload(m);
    let frame = spec_serialize(m);
    let n = payload.len() as u32;
    lemma_u32_be_bytes_round_trip(n);
    assert(frame.len() - 4 == be_u32(frame[0], frame[1], frame[2], frame[3]));
    let body = frame.skip(4);
    assert(body =~= payload);
    if payload.len() == 0 {
        assert(m == MessageModel::KeepAlive);
    } else {
        let rest = body.skip(1);
        match m {
            MessageModel::Have(index) => {
                assert(rest =~= u32_be_bytes(index));
                lemma_u32_be_bytes_round_trip(index);
            },
            MessageModel::Bitfield(bytes) => {
                assert(rest =~= bytes);
            },
            MessageModel::Request(index, offset, length) => {
                assert(rest =~= u32_be_bytes(index) + u32_be_bytes(offset) + u32_be_bytes(length));
                assert(rest.subrange(0, 4) =~= u32_be_bytes(index));
                lemma_u32_be_bytes_round_trip(index);
                assert(rest.subrange(4, 8) =~= u32_be_bytes(offset));
                lemma_u32_be_bytes_round_trip(offset);
                assert(rest.subrange(8, 12) =~= u32_be_bytes(length));
                lemma_u32_be_bytes_round_trip(length);
            },
            MessageModel::Piece(index, offset, data) => {
                assert(rest =~= u32_be_bytes(index) + u32_be_bytes(offset) + data);
                assert(rest.subrange(0, 4) =~= u32_be_bytes(index));
                lemma_u32_be_bytes_round_trip(index);
                assert(rest.subrange(4, 8) =~= u32_be_bytes(offset));
                lemma_u32_be_bytes_round_trip(offset);
                assert(rest.skip(8) =~= data);
            },
            _ => {},
        }
        assert(spec_decode_body(body) == Some(m));
    }
}

impl PartialEq for Message {
    /// Messages are equal when they have the same shape and the same bytes.
    fn eq(&self, other: &Message) -> (r: bool) {
        match (self, other) {
            (Message::KeepAlive, Message::KeepAlive) => true,
            (Message::Choke, Message::Choke) => true,
            (Message::Unchoke, Message::Unchoke) => true,
            (Message::Interested, Message::Interested) => true,
            (Message::NotInterested, Message::NotInterested) => true,
            (Message::Have(a), Message::Have(b)) => a == b,
            (Message::Bitfield(a), Message::Bitfield(b)) => vecs_u8_equal(a, b),
            (Message::Request(a0, a1, a2), Message::Request(b0, b1, b2)) => a0 == b0 && a1 == b1
                && a2 == b2,
            (Message::Piece(a0, a1, a2), Message::Piece(b0, b1, b2)) => a0 == b0 && a1 == b1
                && vecs_u8_equal(a2, b2),
            (Message::Cancel, Message::Cancel) => true,
            (Message::Port, Message::Port) => true,
            _ => false,
        }
    }
}

impl vstd::std_specs::cmp::PartialEqSpecImpl for Message {
    open spec fn obeys_eq_spec() -> bool {
        true
    }

    open spec fn eq_spec(&self, other: &Message) -> bool {
        self@ == other@
    }
}

} // verus!
