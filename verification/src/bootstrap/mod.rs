//! The bootstrap node: a registry that peers join and leave, and that tells
//! every peer about the others.

pub mod message;
pub mod network;
pub mod peer;
