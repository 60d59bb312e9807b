//! The messages peers exchange with each other.

use vstd::prelude::*;

verus! {

/// A message between peers; on the wire it is the JSON form of this enum.
#[derive(Debug)]
pub enum MessageType {
    /// The number a peer drew for the leader election.
    RandomNumber(u64),
    /// The outcome of an election.
    LeaderAnnouncement { leader_id: u64 },
    /// A message from one peer to another.
    PeerMessage { from_id: u64, content: String },
    /// A message the leader sends to every peer.
    LeaderMessage { content: String },
}

} // verus!
