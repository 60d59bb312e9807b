//! A peer as the bootstrap node and the peer nodes know it.

use vstd::prelude::*;

verus! {

/// A peer: its identifier and the address it listens on.
#[derive(Debug)]
pub struct Peer {
    pub id: usize,
    pub addr: String,
}

/// A peer as a mathematical value.
pub struct PeerView {
    pub id: usize,
    pub addr: Seq<char>,
}

impl View for Peer {
    type V = PeerView;

    open spec fn view(&self) -> PeerView {
        PeerView { id: self.id, addr: self.addr@ }
    }
}

impl Clone for Peer {
    fn clone(&self) -> (copy: Self)
        ensures
            copy@ == self@,
    {
        Peer { id: self.id, addr: self.addr.clone() }
    }
}

} // verus!
