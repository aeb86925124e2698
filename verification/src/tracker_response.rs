//! The tracker's decoded response: swarm statistics and the compact peer
//! list, six bytes per peer.

use vstd::prelude::*;

use vstd::arithmetic::div_mod::lemma_fundamental_div_mod;

use crate::peer::Peer;

verus! {

/// A decoded tracker response: the re-announce interval in seconds, the
/// seeder and leecher counts, and the peers to connect to.
#[derive(Debug)]
pub struct TrackerResponse {
    pub interval: u32,
    pub complete: u32,
    pub incomplete: u32,
    pub peers: Vec<Peer>,
}

/// Parses the compact `peers` byte string: each group of six bytes is four
/// IPv4 octets followed by a big-endian port. A trailing fragment shorter
/// than six bytes is ignored.
pub fn parse_peers(bytes: &[u8]) -> (r: Vec<Peer>)
    ensures
        r@.len() == bytes@.len() / 6,
        forall|i: int|
            0 <= i < r@.len() ==> {
                &&& (#[trigger] r@[i]).ip@ =~= seq![
                    bytes@[6 * i],
                    bytes@[6 * i + 1],
                    bytes@[6 * i + 2],
                    bytes@[6 * i + 3],
                ]
                &&& r@[i].port == bytes@[6 * i + 4] * 256 + bytes@[6 * i + 5]
                &&& r@[i].have is None
                &&& r@[i].choked is None
                &&& r@[i].interested is None
            },
{
    let count: usize = bytes.len() / 6;
    proof {
        lemma_fundamental_div_mod(bytes@.len() as int, 6);
    }
    let mut peers: Vec<Peer> = Vec::new();
    let mut c: usize = 0;
    while c < count
        invariant
            count == bytes@.len() as int / 6,
            6 * count <= bytes@.len(),
            6 * count <= usize::MAX,
            c <= count,
            peers@.len() == c,
            forall|i: int|
                0 <= i < c ==> {
                    &&& (#[trigger] peers@[i]).ip@ =~= seq![
                        bytes@[6 * i],
                        bytes@[6 * i + 1],
                        bytes@[6 * i + 2],
                        bytes@[6 * i + 3],
                    ]
                    &&& peers@[i].port == bytes@[6 * i + 4] * 256 + bytes@[6 * i + 5]
                    &&& peers@[i].have is None
                    &&& peers@[i].choked is None
                    &&& peers@[i].interested is None
                },
        decreases count - c,
    {
        proof {
            assert(6 * (c + 1) <= 6 * count) by (nonlinear_arith)
                requires
                    c + 1 <= count,
            ;
        }
        let offset: usize = 6 * c;
        let group = vstd::slice::slice_subrange(bytes, offset, offset + 6);
        let peer = Peer::from_bytes(group);
        peers.push(peer);
        c += 1;
    }
    peers
}

} // verus!
