//! The decisions of a peer in the fully connected network: whom it elects,
//! what it broadcasts, and which peer receives a message for the leader.

use crate::election::{elect_among, is_participant, leader_of, participants};
use crate::message::MessageType;
use crate::peer::Peer;
use vstd::prelude::*;

verus! {

/// The outcome of the election as this peer runs it.
pub struct ElectionRound {
    /// The leader elected.
    pub leader_id: u64,
    /// Broadcast after the election: the announcement of the leader.
    pub announcement: MessageType,
    /// Whether this peer is the leader.
    pub is_leader: bool,
}

/// Runs the election once this peer broadcast `my_random_number` and
/// collected the numbers of the other peers as (sender, number) pairs: the
/// leader is the participant with the largest number, this peer counted first
/// among equals, then the senders in the order their numbers arrived.
pub fn leader_election(peer_id: u64, my_random_number: u64, received: &Vec<(u64, u64)>) -> (round:
    ElectionRound)
    ensures
        round.leader_id == leader_of(participants(peer_id, my_random_number, received@)),
        is_participant(round.leader_id, peer_id, received@),
        round.announcement == (MessageType::LeaderAnnouncement { leader_id: round.leader_id }),
        round.is_leader == (round.leader_id == peer_id),
{
    let leader_id = elect_among(peer_id, my_random_number, received);
    ElectionRound {
        leader_id,
        announcement: MessageType::LeaderAnnouncement { leader_id },
        is_leader: leader_id == peer_id,
    }
}

/// What a connection has told about the peer at its other end.
pub struct Link {
    /// The identifier the peer gave in its greeting, once it greeted.
    pub sender: Option<u64>,
}

/// What a message received on a connection means for the election.
pub enum Arrival {
    /// The greeted peer `from` drew `number`.
    Vote { from: u64, number: u64 },
    /// A number from a peer that did not say who it is; it cannot be counted.
    Unattributed(u64),
    /// Not a number.
    Other,
}

impl Link {
    /// A connection on which nothing was received yet.
    pub fn new() -> (link: Link)
        ensures
            link.sender is None,
    {
        Link { sender: None }
    }

    /// Takes one message received on the connection: a peer message names
    /// its sender, who is from then on the peer at the other end; a number is
    /// a vote of that peer once it is known.
    pub fn receive(&mut self, msg: &MessageType) -> (arrival: Arrival)
        ensures
            match *msg {
                MessageType::PeerMessage { from_id, content: _ } => {
                    &&& final(self).sender == Some(from_id)
                    &&& arrival is Other
                },
                MessageType::RandomNumber(n) => {
                    &&& final(self).sender == old(self).sender
                    &&& arrival == match old(self).sender {
                        Some(id) => Arrival::Vote { from: id, number: n },
                        None => Arrival::Unattributed(n),
                    }
                },
                _ => {
                    &&& final(self).sender == old(self).sender
                    &&& arrival is Other
                },
            },
    {
        match msg {
            MessageType::PeerMessage { from_id, content: _ } => {
                self.sender = Some(*from_id);
                Arrival::Other
            },
            MessageType::RandomNumber(n) => match self.sender {
                Some(id) => Arrival::Vote { from: id, number: *n },
                None => Arrival::Unattributed(*n),
            },
            _ => Arrival::Other,
        }
    }
}

/// The characters of the greeting a peer sends first on a connection.
pub open spec fn hello() -> Seq<char> {
    "Hello from new peer!"@
}

/// The greeting a peer sends first on every connection: it names the peer.
pub fn greeting(peer_id: u64) -> (message: MessageType)
    ensures
        message matches MessageType::PeerMessage { from_id, content } && from_id == peer_id
            && content@ == hello(),
{
    MessageType::PeerMessage { from_id: peer_id, content: String::from_str("Hello from new peer!") }
}

/// The position of the first peer in `peers` with identifier `id`.
pub fn find_peer(peers: &Vec<Peer>, id: u64) -> (found: Option<usize>)
    ensures
        match found {
            Some(i) => {
                &&& i < peers.len()
                &&& peers@[i as int].id == id
                &&& forall|j: int| 0 <= j < i ==> #[trigger] peers@[j].id != id
            },
            None => forall|j: int| 0 <= j < peers.len() ==> #[trigger] peers@[j].id != id,
        },
{
    let mut k: usize = 0;
    while k < peers.len()
        invariant
            k <= peers.len(),
            forall|j: int| 0 <= j < k ==> #[trigger] peers@[j].id != id,
        decreases peers.len() - k,
    {
        if peers[k].id == id {
            return Some(k);
        }
        k = k + 1;
    }
    None
}

/// A message bound for one peer: its position in the peer list and the message.
pub struct Delivery {
    pub target: usize,
    pub message: MessageType,
}

/// Addresses `content` from this peer to the leader: the message goes to the
/// first peer whose identifier is the leader's, or nowhere when no peer is
/// the leader.
pub fn send_message_to_leader(
    peers: &Vec<Peer>,
    leader_id: u64,
    peer_id: u64,
    content: String,
) -> (delivery: Option<Delivery>)
    ensures
        match delivery {
            Some(d) => {
                &&& d.target < peers.len()
                &&& peers@[d.target as int].id == leader_id
                &&& forall|j: int| 0 <= j < d.target ==> #[trigger] peers@[j].id != leader_id
                &&& d.message == (MessageType::PeerMessage { from_id: peer_id, content })
            },
            None => forall|j: int| 0 <= j < peers.len() ==> #[trigger] peers@[j].id != leader_id,
        },
{
    let message = MessageType::PeerMessage { from_id: peer_id, content };
    match find_peer(peers, leader_id) {
        Some(target) => Some(Delivery { target, message }),
        None => None,
    }
}

/// The message the leader broadcasts to every peer.
pub fn leader_broadcast(content: String) -> (message: MessageType)
    ensures
        message == (MessageType::LeaderMessage { content }),
{
    MessageType::LeaderMessage { content }
}

} // verus!
