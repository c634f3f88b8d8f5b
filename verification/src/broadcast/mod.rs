//! Broadcast by gossip: every node passes on what it has seen to some of
//! the others, again and again, until all have seen everything.

pub mod laws;
pub mod model;
pub mod node;
pub mod payload;
