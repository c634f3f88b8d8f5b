//! The records of the broadcast protocol.

use std::collections::HashSet;
use vstd::prelude::*;
use vstd::string::*;

verus! {

/// How long a node waits between two rounds of gossip, in milliseconds.
pub const GOSSIP_INTERVAL_MILLIS: u64 = 450;

/// What a timer puts in.
#[derive(Clone, Copy, Debug, PartialEq, Eq)]
pub enum InjectedPayload {
    /// It is time to gossip.
    Gossip,
}

impl View for InjectedPayload {
    type V = InjectedPayload;

    open spec fn view(&self) -> InjectedPayload {
        *self
    }
}

/// What clients and nodes say to a broadcast node, and what it answers.
#[derive(Debug, PartialEq, Eq)]
pub enum BroadcastPayload {
    /// A value to be made known to every node.
    Broadcast { message: usize },
    /// Asks for the values that the node has seen.
    Read,
    /// A proposal of who is whose neighbor, as pairs of a node and its
    /// neighbors. It is confirmed and not used.
    Topology { topology: Vec<(String, Vec<String>)> },
    /// Values that the sender has seen.
    Gossip { seen: HashSet<usize> },
    BroadcastOk,
    ReadOk { messages: HashSet<usize> },
    TopologyOk,
}

/// The mathematical content of a [`BroadcastPayload`].
pub ghost enum BroadcastRecord {
    Broadcast { message: usize },
    Read,
    Topology { topology: Seq<(Seq<char>, Seq<Seq<char>>)> },
    Gossip { seen: Set<usize> },
    BroadcastOk,
    ReadOk { messages: Set<usize> },
    TopologyOk,
}

impl View for BroadcastPayload {
    type V = BroadcastRecord;

    open spec fn view(&self) -> BroadcastRecord {
        match *self {
            BroadcastPayload::Broadcast { message } => BroadcastRecord::Broadcast { message },
            BroadcastPayload::Read => BroadcastRecord::Read,
            BroadcastPayload::Topology { topology } => BroadcastRecord::Topology {
                topology: topology.deep_view(),
            },
            BroadcastPayload::Gossip { seen } => BroadcastRecord::Gossip { seen: seen@ },
            BroadcastPayload::BroadcastOk => BroadcastRecord::BroadcastOk,
            BroadcastPayload::ReadOk { messages } => BroadcastRecord::ReadOk {
                messages: messages@,
            },
            BroadcastPayload::TopologyOk => BroadcastRecord::TopologyOk,
        }
    }
}

} // verus!
