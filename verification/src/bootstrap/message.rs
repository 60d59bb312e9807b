//! The messages of the bootstrap protocol and of the peer nodes.

use crate::bootstrap::peer::Peer;
use vstd::prelude::*;

verus! {

/// A message between peer nodes; on the wire it is the JSON form of this enum.
#[derive(Debug)]
pub enum MessageType {
    /// The number a peer drew for the leader election.
    RandomNumber(u64),
    /// The outcome of an election.
    LeaderAnnouncement { leader_id: usize },
    /// A message from one peer to another.
    PeerMessage { from_id: usize, content: String },
    /// A message the leader sends to every peer.
    LeaderMessage { content: String },
}

/// A message between a peer node and the bootstrap node; on the wire it is
/// the JSON form of this enum.
#[derive(Debug)]
pub enum BootstrapMessage {
    /// A peer joins, listening at `addr`.
    Register { id: usize, addr: String },
    /// A peer leaves.
    Deregister { id: usize },
    /// The registered peers, sent to a peer that joined.
    PeerList { peers: Vec<Peer> },
    /// A peer joined; sent to the others.
    NewPeer { peer: Peer },
    /// A peer left; sent to the others.
    RemovePeer { id: usize },
}

} // verus!
