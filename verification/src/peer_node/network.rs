//! The state of a peer node and its decisions.

use crate::bootstrap::message::{BootstrapMessage, MessageType};
use crate::bootstrap::peer::Peer;
use crate::election::{elect_among, is_participant, leader_of, participants};
use crate::randomness::random_in_range;
use crate::text::{loopback_addr, loopback_address, ws_url, ws_url_of};
use vstd::prelude::*;

verus! {

/// A peer node: its identifier and address, the peers it learned of from
/// the bootstrap node, and the leader once one is elected.
pub struct Network {
    pub id: usize,
    pub addr: String,
    pub peers: Vec<Peer>,
    pub leader_id: Option<usize>,
}

/// A message for the bootstrap node and the URL it is sent to.
pub struct BootstrapRequest {
    pub url: String,
    pub message: BootstrapMessage,
}

/// The outcome of the election as a peer node runs it.
pub struct ElectionRound {
    /// The leader elected.
    pub leader_id: usize,
    /// Sent to every known peer after the election.
    pub announcement: MessageType,
    /// Whether this node is the leader.
    pub is_leader: bool,
}

/// What a peer node does with a message the bootstrap node pushes to it.
pub enum PeerEvent {
    /// A peer joined: connect to it and greet it.
    Connect(Peer),
    /// A peer left; nothing is kept of the connections, so nothing changes.
    Departed(usize),
    /// A message the peer node does not expect from the bootstrap node.
    Unknown,
}

impl Network {
    /// A node with no known peers and no leader.
    pub fn new(id: usize, addr: String) -> (network: Network)
        ensures
            network.id == id,
            network.addr == addr,
            network.peers@.len() == 0,
            network.leader_id is None,
    {
        Network { id, addr, peers: Vec::new(), leader_id: None }
    }

    /// The registration this node sends to the bootstrap node at
    /// `bootstrap_addr`.
    pub fn register_with_bootstrap(&self, bootstrap_addr: &str) -> (request: BootstrapRequest)
        ensures
            request.url@ == ws_url_of(bootstrap_addr@),
            request.message matches BootstrapMessage::Register { id, addr } && id == self.id
                && addr@ == self.addr@,
    {
        BootstrapRequest {
            url: ws_url(bootstrap_addr),
            message: BootstrapMessage::Register { id: self.id, addr: self.addr.clone() },
        }
    }

    /// Takes the bootstrap node's answer to the registration: a peer list
    /// becomes the known peers; anything else changes nothing. Returns whether
    /// the answer was a peer list.
    pub fn accept_peer_list(&mut self, reply: BootstrapMessage) -> (accepted: bool)
        ensures
            accepted == reply is PeerList,
            final(self).id == old(self).id,
            final(self).addr == old(self).addr,
            final(self).leader_id == old(self).leader_id,
            match reply {
                BootstrapMessage::PeerList { peers } => final(self).peers == peers,
                _ => final(self).peers == old(self).peers,
            },
    {
        match reply {
            BootstrapMessage::PeerList { peers } => {
                self.peers = peers;
                true
            },
            _ => false,
        }
    }

    /// The deregistration of peer `id`, sent to the bootstrap node at
    /// `bootstrap_addr` when the node shuts down.
    pub fn remove_peer(&self, id: usize, bootstrap_addr: &str) -> (request: BootstrapRequest)
        ensures
            request.url@ == ws_url_of(bootstrap_addr@),
            request.message == (BootstrapMessage::Deregister { id }),
    {
        BootstrapRequest { url: ws_url(bootstrap_addr), message: BootstrapMessage::Deregister { id } }
    }

    /// Elects a leader once this node sent `my_random_number` to its peers
    /// and collected their numbers as (sender, number) pairs, and records it:
    /// the participant with the largest number, this node counted first among
    /// equals, then the senders in the order their numbers arrived.
    pub fn leader_election(&mut self, my_random_number: u64, received: &Vec<(usize, u64)>) -> (round:
        ElectionRound)
        ensures
            final(self).id == old(self).id,
            final(self).addr == old(self).addr,
            final(self).peers == old(self).peers,
            final(self).leader_id == Some(round.leader_id),
            round.leader_id == leader_of(participants(old(self).id, my_random_number, received@)),
            is_participant(round.leader_id, old(self).id, received@),
            round.announcement == (MessageType::LeaderAnnouncement { leader_id: round.leader_id }),
            round.is_leader == (round.leader_id == old(self).id),
    {
        let leader_id = elect_among(self.id, my_random_number, received);
        self.leader_id = Some(leader_id);
        ElectionRound {
            leader_id,
            announcement: MessageType::LeaderAnnouncement { leader_id },
            is_leader: leader_id == self.id,
        }
    }
}

/// What a connection has told about the node at its other end.
pub struct Link {
    /// The identifier the node gave in its greeting, once it greeted.
    pub sender: Option<usize>,
}

/// What a message received on a connection means for the election.
pub enum Arrival {
    /// The greeted node `from` drew `number`.
    Vote { from: usize, number: u64 },
    /// A number from a node that did not say who it is; it cannot be counted.
    Unattributed(u64),
    /// Not a number.
    Other,
}

impl Link {
    /// A connection on which nothing was received yet.
    pub fn new() -> (link: Link)
        ensures
            link.sender is None,
    {
        Link { sender: None }
    }

    /// Takes one message received on the connection: a peer message names
    /// its sender, who is from then on the node at the other end; a number is
    /// a vote of that node once it is known.
    pub fn receive(&mut self, msg: &MessageType) -> (arrival: Arrival)
        ensures
            match *msg {
                MessageType::PeerMessage { from_id, content: _ } => {
                    &&& final(self).sender == Some(from_id)
                    &&& arrival is Other
                },
                MessageType::RandomNumber(n) => {
                    &&& final(self).sender == old(self).sender
                    &&& arrival == match old(self).sender {
                        Some(id) => Arrival::Vote { from: id, number: n },
                        None => Arrival::Unattributed(n),
                    }
                },
                _ => {
                    &&& final(self).sender == old(self).sender
                    &&& arrival is Other
                },
            },
    {
        match msg {
            MessageType::PeerMessage { from_id, content: _ } => {
                self.sender = Some(*from_id);
                Arrival::Other
            },
            MessageType::RandomNumber(n) => match self.sender {
                Some(id) => Arrival::Vote { from: id, number: *n },
                None => Arrival::Unattributed(*n),
            },
            _ => Arrival::Other,
        }
    }
}

/// What the node does with a message the bootstrap node pushes to it.
pub fn bootstrap_event(msg: BootstrapMessage) -> (event: PeerEvent)
    ensures
        match msg {
            BootstrapMessage::NewPeer { peer } => event == PeerEvent::Connect(peer),
            BootstrapMessage::RemovePeer { id } => event == PeerEvent::Departed(id),
            _ => event is Unknown,
        },
{
    match msg {
        BootstrapMessage::NewPeer { peer } => PeerEvent::Connect(peer),
        BootstrapMessage::RemovePeer { id } => PeerEvent::Departed(id),
        _ => PeerEvent::Unknown,
    }
}

/// The characters of the greeting a node sends first on a connection.
pub open spec fn greeting() -> Seq<char> {
    "Hello from new peer!"@
}

/// The greeting a node sends first on every connection to a peer: it names
/// the node.
pub fn welcome_message(from_id: usize) -> (message: MessageType)
    ensures
        message matches MessageType::PeerMessage { from_id: id, content } && id == from_id
            && content@ == greeting(),
{
    MessageType::PeerMessage { from_id, content: String::from_str("Hello from new peer!") }
}

/// Lowest identifier a node gives itself.
pub const PEER_ID_MIN: u64 = 1;

/// Highest identifier a node gives itself.
pub const PEER_ID_MAX: u64 = 1_000_000;

/// Draws this node's identifier, between 1 and 1,000,000.
pub fn generate_peer_id() -> (id: usize)
    ensures
        PEER_ID_MIN <= id <= PEER_ID_MAX,
{
    let id = random_in_range(PEER_ID_MIN, PEER_ID_MAX + 1);
    id as usize
}

/// First port a node tries for its own address.
pub const PORT_BASE: u64 = 9000;

/// Number of ports above `PORT_BASE` a node draws from.
pub const PORT_SPAN: u64 = 10_000;

/// How many ports a node tries before it gives up.
pub const MAX_PORT_ATTEMPTS: u32 = 100;

/// The search for a free local address: a budget of attempts, each at a
/// random port.
pub struct PortProbe {
    attempts: u32,
}

/// The next step of the search for a free local address.
pub enum ProbeStep {
    /// Try to bind this address; if it binds, it is the node's address.
    Try(String),
    /// The attempts are used up: no address.
    GiveUp,
}

impl PortProbe {
    /// How many addresses were handed out so far.
    pub closed spec fn attempts(self) -> nat {
        self.attempts as nat
    }

    /// A search that tried nothing yet.
    pub fn new() -> (probe: PortProbe)
        ensures
            probe.attempts() == 0,
    {
        PortProbe { attempts: 0 }
    }

    /// The next address to try, at a random port in `9000..19000`, or
    /// `GiveUp` once 100 addresses were handed out.
    pub fn next_step(&mut self) -> (step: ProbeStep)
        ensures
            old(self).attempts() < MAX_PORT_ATTEMPTS ==> {
                &&& final(self).attempts() == old(self).attempts() + 1
                &&& step matches ProbeStep::Try(addr) && exists|port: nat|
                    PORT_BASE <= port < PORT_BASE + PORT_SPAN && addr@ == #[trigger] loopback_addr(port)
            },
            old(self).attempts() >= MAX_PORT_ATTEMPTS ==> {
                &&& final(self).attempts() == old(self).attempts()
                &&& step is GiveUp
            },
    {
        if self.attempts >= MAX_PORT_ATTEMPTS {
            return ProbeStep::GiveUp;
        }
        self.attempts = self.attempts + 1;
        let port = random_in_range(PORT_BASE, PORT_BASE + PORT_SPAN);
        let addr = loopback_address(port);
        assert(addr@ == loopback_addr(port as nat));
        ProbeStep::Try(addr)
    }
}

} // verus!
