//! A peer that this node is connected to.

use vstd::prelude::*;

verus! {

/// What the node knows of a connected peer: its identifier and the address it
/// was reached at. The channel that carries messages to it is held by the
/// runtime beside this record.
#[derive(Debug, Clone)]
pub struct Peer {
    pub id: u64,
    pub addr: String,
}

impl Peer {
    /// The record of a peer connected to at `addr` that named itself `id` in
    /// its greeting.
    pub fn connected(id: u64, addr: String) -> (peer: Peer)
        ensures
            peer.id == id,
            peer.addr == addr,
    {
        Peer { id, addr }
    }
}

} // verus!
