//! The peer record: an IPv4 address and TCP port in the tracker's compact
//! 6-byte form, and the per-session protocol flags, absent until the session
//! registers them against the piece count.

use vstd::prelude::*;

verus! {

/// A peer from which a client can request data.
///
/// `have` is the availability bit per piece that the counterpart claims;
/// `choked` records that the peer has choked us; `interested` records that
/// we have declared interest.
#[derive(Debug, Clone)]
pub struct Peer {
    pub ip: [u8; 4],
    pub port: u16,
    pub have: Option<Vec<bool>>,
    pub choked: Option<bool>,
    pub interested: Option<bool>,
}

impl Peer {
    /// Parses the compact form: four IPv4 octets, then the port as two
    /// big-endian bytes. Protocol flags stay absent until `register`.
    pub fn from_bytes(v: &[u8]) -> (r: Peer)
        requires
            v@.len() >= 6,
        ensures
            r.ip@ =~= seq![v@[0], v@[1], v@[2], v@[3]],
            r.port == v@[4] * 256 + v@[5],
            r.have is None,
            r.choked is None,
            r.interested is None,
    {
        let ip: [u8; 4] = [v[0], v[1], v[2], v[3]];
        let port: u16 = v[4] as u16 * 256 + v[5] as u16;
        Peer { ip, port, have: None, choked: None, interested: None }
    }

    /// Gives absent protocol flags their post-handshake defaults against the
    /// piece count: no piece claimed, we are choked, and we have not yet
    /// declared interest. Flags already present are kept.
    pub fn register(&mut self, pieces: usize)
        ensures
            final(self).ip == old(self).ip,
            final(self).port == old(self).port,
            old(self).have is None ==> (final(self).have matches Some(h) && h@ =~= Seq::new(
                pieces as nat,
                |i: int| false,
            )),
            old(self).have is Some ==> final(self).have == old(self).have,
            old(self).choked is None ==> final(self).choked == Some(true),
            old(self).choked is Some ==> final(self).choked == old(self).choked,
            old(self).interested is None ==> final(self).interested == Some(false),
            old(self).interested is Some ==> final(self).interested == old(self).interested,
    {
        match &self.have {
            None => {
                self.have = Some(vec![false; pieces]);
            },
            _ => {},
        }
        match &self.choked {
            None => {
                self.choked = Some(true);
            },
            _ => {},
        }
        match &self.interested {
            None => {
                self.interested = Some(false);
            },
            _ => {},
        }
    }
}

} // verus!
