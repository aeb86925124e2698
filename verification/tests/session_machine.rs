use tov::hash::sha;
use tov::ipc::IpcMessage;
use tov::message::{Message, ProtocolError};
use tov::metainfo::{Info, MetaInfo};
use tov::peer::Peer;
use tov::session::{handshake_message, verify_handshake, Action, Session};
use tov::torrent::Torrent;

fn metainfo_for(piece_length: u32, length: u64, hashes: Vec<Vec<u8>>) -> MetaInfo {
    MetaInfo {
        announce: String::from("http://tracker.test/announce"),
        created_by: String::new(),
        info: Info {
            piece_length,
            num_pieces: hashes.len() as u32,
            pieces: hashes,
            name: String::from("out.bin"),
            length,
        },
        info_hash: vec![7; 20],
    }
}

fn session_for(t: &Torrent) -> Session {
    let peer = Peer::from_bytes(&[127, 0, 0, 1, 31, 144]);
    Session::new(peer, t.pieces.len())
}

#[test]
fn handshake_message_test() {
    let info_hash = vec![7u8; 20];
    let peer_id = [b'x'; 20];
    let bytes = handshake_message(&info_hash, &peer_id);
    assert_eq!(bytes.len(), 68);
    assert_eq!(bytes[0], 19);
    assert_eq!(&bytes[1..20], b"BitTorrent protocol");
    // Eight zero reserved bytes.
    assert_eq!(&bytes[20..28], &[0u8; 8]);
    assert_eq!(&bytes[28..48], &info_hash[..]);
    assert_eq!(&bytes[48..68], &peer_id[..]);
}

#[test]
fn verify_handshake_test() {
    let expected = vec![7u8; 20];
    assert!(verify_handshake(&[7u8; 20], &expected).is_ok());
    assert_eq!(
        verify_handshake(&[8u8; 20], &expected),
        Err(ProtocolError::InfoHashMismatch)
    );
}

#[test]
fn session_defaults_test() {
    // Post-handshake flag defaults: nothing claimed, choked, not interested.
    let s = Session::new(Peer::from_bytes(&[10, 0, 0, 1, 0, 80]), 3);
    assert_eq!(s.peer.have, Some(vec![false, false, false]));
    assert_eq!(s.peer.choked, Some(true));
    assert_eq!(s.peer.interested, Some(false));
    assert!(!s.peer_interested);
}

#[test]
fn bitfield_bits_test() {
    // Entry i mirrors bit 7 - i % 8 of byte i / 8 of the payload.
    let m = metainfo_for(4, 37, vec![vec![0; 20]; 10]);
    let mut t = Torrent::new(String::from("-AZ2060-AAAAAAAAAAAA"), m);
    let mut s = session_for(&t);
    let step = s
        .handle_message(&mut t, Message::Bitfield(vec![0b1010_0000, 0b0100_0000]))
        .unwrap();
    assert_eq!(
        s.peer.have,
        Some(vec![
            true, false, true, false, false, false, false, false, false, true
        ])
    );
    // The first availability triggers the one-time interest declaration.
    assert_eq!(step.actions.len(), 1);
    match &step.actions[0] {
        Action::Send(m) => assert_eq!(*m, Message::Interested),
        _ => panic!("expected a send"),
    }
    assert_eq!(s.peer.interested, Some(true));
    assert!(!step.done);
}

#[test]
fn bitfield_padding_ignored_test() {
    // Three pieces, one byte of bitfield: the five padding bits are ignored.
    let m = metainfo_for(4, 10, vec![vec![0; 20], vec![1; 20], vec![2; 20]]);
    let mut t = Torrent::new(String::from("-AZ2060-AAAAAAAAAAAA"), m);
    let mut s = session_for(&t);
    s.handle_message(&mut t, Message::Bitfield(vec![0b1111_1111])).unwrap();
    assert_eq!(s.peer.have, Some(vec![true, true, true]));
}

#[test]
fn bitfield_too_short_test() {
    let m = metainfo_for(4, 34, vec![vec![0; 20]; 9]);
    let mut t = Torrent::new(String::from("-AZ2060-AAAAAAAAAAAA"), m);
    let mut s = session_for(&t);
    // Nine pieces need two bytes.
    assert_eq!(
        s.handle_message(&mut t, Message::Bitfield(vec![0xFF])).unwrap_err(),
        ProtocolError::TruncatedFrame
    );
}

#[test]
fn have_message_test() {
    let m = metainfo_for(4, 10, vec![vec![0; 20], vec![1; 20], vec![2; 20]]);
    let mut t = Torrent::new(String::from("-AZ2060-AAAAAAAAAAAA"), m);
    let mut s = session_for(&t);

    let step = s.handle_message(&mut t, Message::Have(1)).unwrap();
    assert_eq!(s.peer.have, Some(vec![false, true, false]));
    assert_eq!(step.actions.len(), 1);
    match &step.actions[0] {
        Action::Send(m) => assert_eq!(*m, Message::Interested),
        _ => panic!("expected a send"),
    }

    // Interest is declared only once.
    let again = s.handle_message(&mut t, Message::Have(0)).unwrap();
    assert_eq!(s.peer.have, Some(vec![true, true, false]));
    assert_eq!(again.actions.len(), 0);

    // An index beyond the piece count is a protocol error.
    assert_eq!(
        s.handle_message(&mut t, Message::Have(3)).unwrap_err(),
        ProtocolError::BadIndex
    );
}

#[test]
fn choked_sends_no_request_test() {
    let data = vec![1u8; 4];
    let m = metainfo_for(4, 4, vec![sha(&data)]);
    let mut t = Torrent::new(String::from("-AZ2060-AAAAAAAAAAAA"), m);
    let mut s = session_for(&t);
    s.handle_message(&mut t, Message::Bitfield(vec![0b1000_0000])).unwrap();

    // Still choked: an unsolicited piece for the wrong bytes triggers no
    // new request while choked.
    let step = s.handle_message(&mut t, Message::Piece(0, 0, vec![9u8; 4])).unwrap();
    assert_eq!(step.actions.len(), 0);
    assert!(!step.done);

    // After Unchoke the request goes out.
    let step = s.handle_message(&mut t, Message::Unchoke).unwrap();
    assert_eq!(step.actions.len(), 1);
    match &step.actions[0] {
        Action::Send(m) => assert_eq!(*m, Message::Request(0, 0, 4)),
        _ => panic!("expected a send"),
    }

    // Choke again: no requests are issued on later pieces.
    s.handle_message(&mut t, Message::Choke).unwrap();
    assert_eq!(s.peer.choked, Some(true));
}

#[test]
fn cancelled_duplicate_dropped_test() {
    let data = vec![1u8; 4];
    let m = metainfo_for(4, 4, vec![sha(&data)]);
    let mut t = Torrent::new(String::from("-AZ2060-AAAAAAAAAAAA"), m);
    let mut s = session_for(&t);
    s.handle_message(&mut t, Message::Bitfield(vec![0b1000_0000])).unwrap();
    s.handle_message(&mut t, Message::Unchoke).unwrap();

    // Another session stored the block: the notice arrives first, then the
    // payload we had already requested. It must be dropped, not stored.
    s.handle_ipc(IpcMessage::CancelRequest(0, 0));
    let step = s.handle_message(&mut t, Message::Piece(0, 0, data)).unwrap();
    assert!(!t.pieces[0].is_complete);
    assert!(!step.done);
}

#[test]
fn request_cancel_port_ignored_test() {
    let m = metainfo_for(4, 10, vec![vec![0; 20], vec![1; 20], vec![2; 20]]);
    let mut t = Torrent::new(String::from("-AZ2060-AAAAAAAAAAAA"), m);
    let mut s = session_for(&t);
    for msg in [
        Message::Request(0, 0, 4),
        Message::Cancel,
        Message::Port,
        Message::Interested,
        Message::NotInterested,
        Message::KeepAlive,
    ] {
        let step = s.handle_message(&mut t, msg).unwrap();
        assert_eq!(step.actions.len(), 0);
        assert!(!step.done);
    }
}

#[test]
fn piece_bad_index_test() {
    let m = metainfo_for(4, 10, vec![vec![0; 20], vec![1; 20], vec![2; 20]]);
    let mut t = Torrent::new(String::from("-AZ2060-AAAAAAAAAAAA"), m);
    let mut s = session_for(&t);
    // Piece index beyond the torrent.
    assert_eq!(
        s.handle_message(&mut t, Message::Piece(3, 0, vec![1])).unwrap_err(),
        ProtocolError::BadIndex
    );
    // Block offset beyond the piece's one block.
    assert_eq!(
        s.handle_message(&mut t, Message::Piece(0, 16384, vec![1])).unwrap_err(),
        ProtocolError::BadIndex
    );
    // The session and the store are untouched by the faults.
    assert!(!t.pieces[0].is_complete);
    assert_eq!(s.peer.have, Some(vec![false, false, false]));
}

#[test]
fn end_to_end_test() {
    // A torrent of one three-byte piece; a mock peer advertises it, unchokes
    // us, and answers the request with the right bytes.
    let payload = vec![1u8, 2, 3];
    let m = metainfo_for(3, 3, vec![sha(&payload)]);
    let mut t = Torrent::new(String::from("-AZ2060-AAAAAAAAAAAA"), m);
    let mut s = session_for(&t);
    let mut file = vec![0u8; 3];

    let step = s.handle_message(&mut t, Message::Bitfield(vec![0b1000_0000])).unwrap();
    assert_eq!(step.actions.len(), 1);
    match &step.actions[0] {
        Action::Send(m) => assert_eq!(*m, Message::Interested),
        _ => panic!("expected a send"),
    }

    let step = s.handle_message(&mut t, Message::Unchoke).unwrap();
    assert_eq!(step.actions.len(), 1);
    match &step.actions[0] {
        Action::Send(m) => assert_eq!(*m, Message::Request(0, 0, 3)),
        _ => panic!("expected a send"),
    }

    let step = s.handle_message(&mut t, Message::Piece(0, 0, payload.clone())).unwrap();
    assert!(step.done);
    assert_eq!(step.actions.len(), 1);
    match &step.actions[0] {
        Action::Write(w) => {
            let start = w.offset as usize;
            file[start..start + w.data.len()].copy_from_slice(&w.data);
        }
        _ => panic!("expected a write"),
    }
    assert_eq!(file, payload);
    assert!(t.is_complete());
}
