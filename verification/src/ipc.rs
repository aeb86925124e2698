//! Notifications passed between peer sessions through the torrent store's
//! broadcast channels.

use vstd::prelude::*;

verus! {

/// A notice to a peer session: the named piece and block were stored and
/// verified through another session, so the session must not request the
/// block again and must treat a later arriving copy as a duplicate.
#[derive(Debug, Clone, Copy, PartialEq, Eq, Structural)]
pub enum IpcMessage {
    CancelRequest(u32, u32),
}

} // verus!
