//! Core of a single-torrent BitTorrent leecher: the peer wire codec, the
//! per-piece block ledger with SHA-1 verification, the shared torrent store
//! with request selection and cancellation broadcast, and the per-connection
//! session state machine, all with machine-checked contracts.

pub mod block;
pub mod hash;
pub mod ipc;
pub mod message;
pub mod metainfo;
pub mod peer;
pub mod piece;
pub mod session;
pub mod torrent;
pub mod tracker;
pub mod tracker_response;
pub mod util;
