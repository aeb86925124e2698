use tov::block::Block;
use tov::hash::sha;
use tov::piece::{Piece, StoreOutcome};

#[test]
fn make_block_test() {
    let block: Block = Block::new(0, 12);
    assert_eq!(block, Block { index: 0, length: 12, data: None });
}

#[test]
fn make_piece_test() {
    let p = Piece::new(256, 4, 4, vec![1, 2, 3]);
    assert_eq!(
        p,
        Piece {
            length: 256,
            piece_length: 4,
            index: 4,
            blocks: vec![Block::new(0, 256)],
            hash: vec![1, 2, 3],
            is_complete: false,
        }
    );
}

#[test]
fn next_block_test() {
    let mut p = Piece::new(256, 4, 4, vec![1, 2, 3]);
    assert_eq!(
        p.next_block_to_request(),
        Some(&Block { index: 0, length: 256, data: None })
    );

    p.is_complete = true;
    assert_eq!(p.next_block_to_request(), None);
}

#[test]
fn have_all_blocks_test() {
    let mut p = Piece::new(256, 4, 4, vec![1, 2, 3]);
    assert_eq!(p.have_all_blocks(), false);

    p = Piece {
        length: 256,
        piece_length: 4,
        index: 4,
        blocks: vec![Block { index: 12, length: 12, data: Some(vec![]) }],
        hash: vec![1, 2, 3],
        is_complete: false,
    };
    assert_eq!(p.have_all_blocks(), true);
}

#[test]
fn clear_block_data_test() {
    let mut p = Piece {
        length: 256,
        piece_length: 4,
        index: 4,
        blocks: vec![Block { index: 12, length: 12, data: Some(vec![]) }],
        hash: vec![1, 2, 3],
        is_complete: false,
    };

    p.clear_block_data();
    assert_eq!(p.blocks, vec![Block { index: 12, length: 12, data: None }]);
}

#[test]
fn block_count_test() {
    // One block for a piece within the block size, one extra for a remainder.
    assert_eq!(Piece::new(16384, 0, 16384, vec![]).blocks.len(), 1);
    assert_eq!(Piece::new(16385, 0, 16385, vec![]).blocks.len(), 2);
    assert_eq!(Piece::new(1, 0, 1, vec![]).blocks.len(), 1);
    let p = Piece::new(3 * 16384 + 5, 0, 3 * 16384 + 5, vec![]);
    assert_eq!(p.blocks.len(), 4);
    assert_eq!(p.blocks[0].length, 16384);
    assert_eq!(p.blocks[1].length, 16384);
    assert_eq!(p.blocks[2].length, 16384);
    assert_eq!(p.blocks[3].length, 5);
}

#[test]
fn single_block_piece_test() {
    // A piece no longer than one block is requested in one piece-sized block.
    let p = Piece::new(4000, 0, 4000, vec![]);
    assert_eq!(p.blocks.len(), 1);
    assert_eq!(p.blocks[0].length, 4000);
}

#[test]
fn piece_verify_test() {
    let first = vec![0xAA; 16384];
    let second = vec![0xBB; 16384];
    let mut whole: Vec<u8> = Vec::new();
    whole.extend_from_slice(&first);
    whole.extend_from_slice(&second);
    let expected_hash = sha(&whole);

    let mut p = Piece::new(32768, 0, 32768, expected_hash.clone());
    assert_eq!(p.blocks.len(), 2);
    match p.store(0, first.clone()) {
        StoreOutcome::Incomplete => {}
        _ => panic!("one block must not complete the piece"),
    }
    match p.store(1, second.clone()) {
        StoreOutcome::Verified(data) => assert_eq!(data, whole),
        _ => panic!("both blocks with a matching digest must verify"),
    }
    assert!(p.is_complete);
    for block in p.blocks.iter() {
        assert!(block.data.is_none());
    }

    // Corrupt one block: no bytes come back, the piece stays incomplete and
    // every block is requestable again.
    let mut corrupted = Piece::new(32768, 0, 32768, expected_hash);
    match corrupted.store(0, vec![0xCC; 16384]) {
        StoreOutcome::Incomplete => {}
        _ => panic!("one block must not complete the piece"),
    }
    match corrupted.store(1, second) {
        StoreOutcome::HashMismatch => {}
        _ => panic!("a wrong digest must be rejected"),
    }
    assert!(!corrupted.is_complete);
    for block in corrupted.blocks.iter() {
        assert!(block.data.is_none());
    }
    assert_eq!(
        corrupted.next_block_to_request(),
        Some(&Block { index: 0, length: 16384, data: None })
    );
}
