//! A peer node: it joins through the bootstrap node, elects a leader among
//! the peers it knows, and finds itself a free local address.

pub mod network;
