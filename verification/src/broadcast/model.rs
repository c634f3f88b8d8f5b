//! A broadcast node as a state machine.

use crate::broadcast::payload::{BroadcastRecord, InjectedPayload};
use crate::network::EventView;
use crate::protocol::{answer_to, origin_of, Envelope};
use crate::sets::gossip_for;
use crate::text::first_of;
use vstd::prelude::*;

verus! {

/// The mathematical content of a broadcast node.
#[verifier::ext_equal]
pub ghost struct BroadcastState {
    pub node_id: Seq<char>,
    /// The values that the node has seen.
    pub seen: Set<usize>,
    /// The names of all nodes.
    pub peers: Seq<Seq<char>>,
    /// For each of `peers`, the values that it is believed to know.
    pub known: Seq<Set<usize>>,
    /// The nodes that this node gossips to.
    pub neighborhood: Seq<Seq<char>>,
}

/// How many neighbors a node among `n` nodes has: one more than half of
/// them, rounded up, as far as there are that many.
pub open spec fn neighborhood_size(n: nat) -> nat {
    let wanted = n / 2 + n % 2 + 1;
    if wanted <= n {
        wanted
    } else {
        n
    }
}

impl BroadcastState {
    /// A node that has seen nothing, believes nobody to know anything, and
    /// has the first of `order` as its neighbors.
    pub open spec fn initial(
        node_id: Seq<char>,
        peers: Seq<Seq<char>>,
        order: Seq<Seq<char>>,
    ) -> BroadcastState {
        BroadcastState {
            node_id,
            seen: Set::empty(),
            peers,
            known: Seq::new(peers.len(), |i: int| Set::empty()),
            neighborhood: order.take(
                if neighborhood_size(peers.len()) <= order.len() {
                    neighborhood_size(peers.len()) as int
                } else {
                    order.len() as int
                },
            ),
        }
    }

    /// What `peer` is believed to know: nothing, where no node of that name
    /// is known.
    pub open spec fn known_to(self, peer: Seq<char>) -> Set<usize> {
        match first_of(self.peers, peer) {
            Some(at) => self.known[at],
            None => Set::empty(),
        }
    }

    /// The node after `sender` has gossiped `values` to it: it has seen them
    /// too, and it believes `sender` to know them.
    pub open spec fn hearing(self, sender: Seq<char>, values: Set<usize>) -> BroadcastState {
        BroadcastState {
            seen: self.seen.union(values),
            known: match first_of(self.peers, sender) {
                Some(at) => self.known.update(at, self.known[at].union(values)),
                None => self.known,
            },
            ..self
        }
    }

    /// The node after `event`.
    ///
    /// A broadcast value is seen from then on. Gossip is taken in as
    /// [`Self::hearing`] says. Nothing else changes the node.
    pub open spec fn received(
        self,
        event: EventView<BroadcastRecord, InjectedPayload>,
    ) -> BroadcastState {
        match event {
            EventView::Message(message) => match message.payload {
                BroadcastRecord::Gossip { seen } => self.hearing(message.src, seen),
                BroadcastRecord::Broadcast { message: value } => BroadcastState {
                    seen: self.seen.insert(value),
                    ..self
                },
                _ => self,
            },
            _ => self,
        }
    }

    /// Whether `message` is a gossip message that the node may send to the
    /// neighbor at position `at`.
    pub open spec fn gossips(self, at: int, message: Envelope<BroadcastRecord>) -> bool {
        &&& message.src == self.node_id
        &&& message.dst == self.neighborhood[at]
        &&& message.id == None::<usize>
        &&& message.in_reply_to == None::<usize>
        &&& message.payload matches BroadcastRecord::Gossip { seen }
        &&& gossip_for(self.seen, self.known_to(self.neighborhood[at]), seen)
    }

    /// Whether `out` is what the node sends when `event` arrives.
    ///
    /// A broadcast and a proposed topology are confirmed; a read is answered
    /// with the values seen. When it is time to gossip, each neighbor is sent
    /// one gossip message, in the order of the neighborhood. Nothing else is
    /// answered.
    pub open spec fn sends(
        self,
        event: EventView<BroadcastRecord, InjectedPayload>,
        out: Seq<Envelope<BroadcastRecord>>,
    ) -> bool {
        match event {
            EventView::Injected(InjectedPayload::Gossip) => {
                &&& out.len() == self.neighborhood.len()
                &&& forall|at: int| 0 <= at < out.len() ==> self.gossips(at, #[trigger] out[at])
            },
            EventView::Message(message) => match message.payload {
                BroadcastRecord::Broadcast { .. } => out == seq![
                    answer_to(origin_of(message), BroadcastRecord::BroadcastOk),
                ],
                BroadcastRecord::Read => out == seq![
                    answer_to(origin_of(message), BroadcastRecord::ReadOk { messages: self.seen }),
                ],
                BroadcastRecord::Topology { .. } => out == seq![
                    answer_to(origin_of(message), BroadcastRecord::TopologyOk),
                ],
                _ => out == Seq::<Envelope<BroadcastRecord>>::empty(),
            },
            EventView::Storage(_) => out == Seq::<Envelope<BroadcastRecord>>::empty(),
        }
    }
}

} // verus!
