//! Peer-to-peer networking with a bootstrap registry and leader election.
//!
//! The verified part of the project: the rules by which peers elect a
//! leader, the bootstrap node's registry of peers and the messages it sends,
//! the peer node's state and decisions, and the textual addresses the nodes
//! connect to. Sockets, websockets, JSON and the async runtime live in `app/`.

pub mod election;
pub mod randomness;
pub mod text;
pub mod message;
pub mod network;
pub mod peer;
pub mod bootstrap;
pub mod peer_node;
