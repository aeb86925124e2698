use tov::message::{Message, ProtocolError};

#[test]
fn make_and_serialize_message_test() {
    let mut msg = Message::new(&0, &[]);
    assert_eq!(msg, Message::Choke);
    assert_eq!(msg.serialize(), vec![0, 0, 0, 1, 0,]);

    msg = Message::new(&1, &[]);
    assert_eq!(msg, Message::Unchoke);
    assert_eq!(msg.serialize(), vec![0, 0, 0, 1, 1,]);

    msg = Message::new(&2, &[]);
    assert_eq!(msg, Message::Interested);
    assert_eq!(msg.serialize(), vec![0, 0, 0, 1, 2,]);

    msg = Message::new(&3, &[]);
    assert_eq!(msg, Message::NotInterested);
    assert_eq!(msg.serialize(), vec![0, 0, 0, 1, 3,]);

    msg = Message::new(&4, &[0, 0, 1, 1]);
    assert_eq!(msg, Message::Have(257));
    assert_eq!(msg.serialize(), vec![0, 0, 0, 5, 4, 0, 0, 1, 1,]);

    msg = Message::new(&5, &[0, 0, 1, 1]);
    assert_eq!(msg, Message::Bitfield(vec![0, 0, 1, 1]));
    assert_eq!(msg.serialize(), vec![0, 0, 0, 5, 5, 0, 0, 1, 1,]);

    msg = Message::new(&6, &[0, 0, 1, 1, 0, 0, 1, 2, 0, 0, 1, 3]);
    assert_eq!(msg, Message::Request(257, 258, 259));
    assert_eq!(msg.serialize(), vec![0, 0, 0, 13, 6, 0, 0, 1, 1, 0, 0, 1, 2, 0, 0, 1, 3,]);

    msg = Message::new(&7, &[0, 0, 1, 1, 0, 0, 1, 2, 0, 0, 1, 3, 4, 5]);
    assert_eq!(msg, Message::Piece(257, 258, vec![0, 0, 1, 3, 4, 5]));
    assert_eq!(msg.serialize(), vec![0, 0, 0, 15, 7, 0, 0, 1, 1, 0, 0, 1, 2, 0, 0, 1, 3, 4, 5,]);

    msg = Message::new(&8, &[]);
    assert_eq!(msg, Message::Cancel);
    assert_eq!(msg.serialize(), vec![0, 0, 0, 1, 8,]);

    msg = Message::new(&9, &[]);
    assert_eq!(msg, Message::Port);
    assert_eq!(msg.serialize(), vec![0, 0, 0, 1, 9,]);

    msg = Message::KeepAlive;
    assert_eq!(msg.serialize(), vec![0, 0, 0, 0]);
}

#[test]
fn codec_choke_round_trip_test() {
    let frame = Message::Choke.serialize();
    assert_eq!(frame, vec![0, 0, 0, 1, 0]);
    assert_eq!(Message::decode(&frame).unwrap(), Message::Choke);
}

#[test]
fn codec_have_round_trip_test() {
    let frame = Message::Have(257).serialize();
    assert_eq!(frame, vec![0, 0, 0, 5, 4, 0, 0, 1, 1]);
    assert_eq!(Message::decode(&frame).unwrap(), Message::Have(257));
}

#[test]
fn codec_piece_round_trip_test() {
    let frame = Message::Piece(257, 258, vec![0, 0, 1, 3, 4, 5]).serialize();
    assert_eq!(frame, vec![0, 0, 0, 15, 7, 0, 0, 1, 1, 0, 0, 1, 2, 0, 0, 1, 3, 4, 5]);
    assert_eq!(
        Message::decode(&frame).unwrap(),
        Message::Piece(257, 258, vec![0, 0, 1, 3, 4, 5])
    );
}

#[test]
fn keep_alive_frame_test() {
    let frame = Message::KeepAlive.serialize();
    assert_eq!(frame, vec![0, 0, 0, 0]);
    assert_eq!(Message::decode(&frame).unwrap(), Message::KeepAlive);
}

#[test]
fn round_trip_every_variant_test() {
    let messages = vec![
        Message::KeepAlive,
        Message::Choke,
        Message::Unchoke,
        Message::Interested,
        Message::NotInterested,
        Message::Have(0xDEADBEEF),
        Message::Bitfield(vec![0xFF, 0x00, 0xA5]),
        Message::Request(1, 16384, 16384),
        Message::Piece(2, 32768, vec![9; 100]),
        Message::Cancel,
        Message::Port,
    ];
    let copies = vec![
        Message::KeepAlive,
        Message::Choke,
        Message::Unchoke,
        Message::Interested,
        Message::NotInterested,
        Message::Have(0xDEADBEEF),
        Message::Bitfield(vec![0xFF, 0x00, 0xA5]),
        Message::Request(1, 16384, 16384),
        Message::Piece(2, 32768, vec![9; 100]),
        Message::Cancel,
        Message::Port,
    ];
    for (m, copy) in messages.into_iter().zip(copies.into_iter()) {
        let frame = m.serialize();
        assert_eq!(Message::decode(&frame).unwrap(), copy);
    }
}

#[test]
fn decode_unknown_id_test() {
    assert_eq!(Message::decode(&[0, 0, 0, 1, 10]), Err(ProtocolError::UnknownId));
    assert_eq!(Message::decode_body(&[255]), Err(ProtocolError::UnknownId));
}

#[test]
fn decode_truncated_test() {
    // Length prefix promises more bytes than the frame holds.
    assert_eq!(Message::decode(&[0, 0, 0, 5, 4, 0, 0]), Err(ProtocolError::TruncatedFrame));
    // A Have body needs four bytes after the id.
    assert_eq!(Message::decode_body(&[4, 0, 0]), Err(ProtocolError::TruncatedFrame));
    // No room for the length prefix at all.
    assert_eq!(Message::decode(&[0, 0]), Err(ProtocolError::TruncatedFrame));
}
