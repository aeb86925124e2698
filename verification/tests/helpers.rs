use tov::hash::sha;
use tov::metainfo::{split_piece_hashes, Info, MetaInfo};
use tov::peer::Peer;
use tov::tracker::{parameterize, tracker_url};
use tov::tracker_response::parse_peers;
use tov::util::{bytes_to_u32, create_peer_id, parse_string, u32_to_bytes, u64_to_string};

#[test]
fn basic_test() {
    assert!(true);
}

#[test]
fn make_sha_test() {
    let hash: Vec<u8> = sha(&[0]);
    assert_eq!(
        hash,
        vec![91, 169, 60, 157, 176, 207, 249, 63, 82, 181, 33, 215, 66, 14, 67, 246, 237, 162, 120, 79]
    );
}

#[test]
fn sample_params_test() {
    let params: Vec<(&str, &str)> = vec![("peer_id", "l33t"), ("port", "8080")];
    assert_eq!("peer_id=l33t&port=8080".to_string(), parameterize(params));
}

#[test]
fn peer_from_bytes_test() {
    let bytes = [127, 0, 0, 1, 31, 144];
    let p = Peer::from_bytes(&bytes);
    assert_eq!(p.ip, [127, 0, 0, 1]);
    assert_eq!(p.port, 8080);
    assert_eq!(p.have, None);
    assert_eq!(p.choked, None);
    assert_eq!(p.interested, None);
}

#[test]
fn peer_register_test() {
    let mut p = Peer::from_bytes(&[10, 1, 2, 3, 0, 80]);
    p.register(4);
    assert_eq!(p.have, Some(vec![false; 4]));
    assert_eq!(p.choked, Some(true));
    assert_eq!(p.interested, Some(false));
    // Flags already present are kept.
    p.register(9);
    assert_eq!(p.have, Some(vec![false; 4]));
}

#[test]
fn be_u32_round_trip_test() {
    assert_eq!(u32_to_bytes(257), vec![0, 0, 1, 1]);
    assert_eq!(bytes_to_u32(&[0, 0, 1, 1]), 257);
    assert_eq!(bytes_to_u32(&u32_to_bytes(0xDEADBEEF)), 0xDEADBEEF);
    assert_eq!(u32_to_bytes(0), vec![0, 0, 0, 0]);
}

#[test]
fn u64_to_string_test() {
    assert_eq!(u64_to_string(0), "0");
    assert_eq!(u64_to_string(7), "7");
    assert_eq!(u64_to_string(12345), "12345");
    assert_eq!(u64_to_string(10_000_000_000), "10000000000");
}

#[test]
fn parse_string_test() {
    assert_eq!(parse_string("s\"pieces\""), "pieces");
    assert_eq!(parse_string("\"quoted\""), "quoted");
    assert_eq!(parse_string("no quotes here"), "no quotes here");
}

#[test]
fn create_peer_id_test() {
    let id = create_peer_id();
    assert_eq!(id.len(), 20);
    assert!(id.starts_with("-AZ2060-"));
    for c in id[8..].chars() {
        assert!(c.is_ascii_alphanumeric());
    }
    // Two draws almost surely differ; equal draws would suggest the random
    // suffix is not random at all.
    let again = create_peer_id();
    assert_eq!(again.len(), 20);
}

#[test]
fn split_piece_hashes_test() {
    let mut bytes: Vec<u8> = Vec::new();
    bytes.extend_from_slice(&[1u8; 20]);
    bytes.extend_from_slice(&[2u8; 20]);
    let hashes = split_piece_hashes(&bytes);
    assert_eq!(hashes.len(), 2);
    assert_eq!(hashes[0], vec![1u8; 20]);
    assert_eq!(hashes[1], vec![2u8; 20]);
    assert_eq!(split_piece_hashes(&[]).len(), 0);
}

#[test]
fn parse_peers_test() {
    let bytes = [98, 227, 182, 253, 31, 144, 165, 124, 144, 88, 31, 145, 96];
    // The trailing thirteenth byte is ignored.
    let peers = parse_peers(&bytes);
    assert_eq!(peers.len(), 2);
    assert_eq!(peers[0].ip, [98, 227, 182, 253]);
    assert_eq!(peers[0].port, 8080);
    assert_eq!(peers[1].ip, [165, 124, 144, 88]);
    assert_eq!(peers[1].port, 8081);
    assert_eq!(parse_peers(&[1, 2, 3]).len(), 0);
}

#[test]
fn tracker_url_test() {
    let m = MetaInfo {
        announce: String::from("http://tracker.test/announce"),
        created_by: String::new(),
        info: Info {
            piece_length: 4,
            pieces: vec![vec![0; 20]],
            num_pieces: 1,
            name: String::from("out.bin"),
            length: 4,
        },
        // A byte needing escape, a non-ASCII byte, and a plain letter.
        info_hash: vec![0x12, 0xFF, b'a'],
    };
    let url = tracker_url(&m, "-AZ2060-AAAAAAAAAAAA", "8080");
    assert_eq!(
        url,
        "http://tracker.test/announce?info_hash=%12%FFa&peer_id=-AZ2060-AAAAAAAAAAAA\
         &port=8080&uploaded=0&downloaded=0&left=4&compact=1&event=started"
    );
}
