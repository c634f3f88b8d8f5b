//! The broadcast node.

use crate::broadcast::model::BroadcastState;
use crate::broadcast::payload::{BroadcastPayload, InjectedPayload};
use crate::network::Event;
use crate::protocol::{Body, Init, Message};
use crate::sets::{copy_of, notify, union_into};
use crate::text::{first_of, lemma_first_of, same_text};
use std::collections::HashSet;
use vstd::prelude::*;
use vstd::string::*;

verus! {

/// Puts the names into a random order.
///
/// This is `rand`'s `SliceRandom::shuffle` with the generator of the thread,
/// `rand::thread_rng`. It moves the names among the positions of the list by
/// swapping pairs of them: afterwards the list holds the same names, each as
/// often as before. Which order comes out is left open. The call fails only
/// where the operating system cannot seed the generator.
#[verifier::external_body]
fn shuffle(names: &mut Vec<String>)
    ensures
        final(names)@.to_multiset() == old(names)@.to_multiset(),
{
    rand::seq::SliceRandom::shuffle(names.as_mut_slice(), &mut rand::thread_rng());
}

/// A node and what it is believed to know.
#[derive(Debug)]
pub struct Peer {
    name: String,
    known: HashSet<usize>,
}

/// A broadcast node.
#[derive(Debug)]
pub struct BroadcastNode {
    node_id: String,
    messages: HashSet<usize>,
    neighborhood: Vec<String>,
    peers: Vec<Peer>,
}

impl View for BroadcastNode {
    type V = BroadcastState;

    closed spec fn view(&self) -> BroadcastState {
        BroadcastState {
            node_id: self.node_id@,
            seen: self.messages@,
            peers: Seq::new(self.peers.len() as nat, |i: int| self.peers[i].name@),
            known: Seq::new(self.peers.len() as nat, |i: int| self.peers[i].known@),
            neighborhood: self.neighborhood.deep_view(),
        }
    }
}

/// The names in `names`.
pub open spec fn names_of(names: Seq<String>) -> Seq<Seq<char>> {
    Seq::new(names.len(), |i: int| names[i]@)
}

impl BroadcastNode {
    /// The node that the handshake describes, with a neighborhood chosen at
    /// random: the nodes are put into a random order, and the first of them
    /// become the neighbors.
    pub fn from_init(init: Init) -> (node: Self)
        ensures
            exists|order: Seq<String>|
                #![trigger order.to_multiset()]
                order.to_multiset() == init.node_ids@.to_multiset() && node@
                    == BroadcastState::initial(
                    init.node_id@,
                    names_of(init.node_ids@),
                    names_of(order),
                ),
    {
        let mut order = Self::names(&init.node_ids);
        assert(order@ =~= init.node_ids@);
        shuffle(&mut order);
        let ghost shuffled = order@;
        let node = Self::with_order(init, order);
        assert(shuffled.to_multiset() == init.node_ids@.to_multiset());
        node
    }

    fn names(names: &Vec<String>) -> (copy: Vec<String>)
        ensures
            copy@ == names@,
    {
        let mut copy: Vec<String> = Vec::new();
        let mut i: usize = 0;
        while i < names.len()
            invariant
                i <= names.len(),
                copy@ == names@.take(i as int),
            decreases names.len() - i,
        {
            copy.push(names[i].clone());
            assert(copy@ =~= names@.take(i + 1));
            i += 1;
        }
        assert(names@.take(names.len() as int) =~= names@);
        copy
    }

    /// The node that the handshake describes, with the first of `order` as
    /// its neighbors.
    pub fn with_order(init: Init, order: Vec<String>) -> (node: Self)
        ensures
            node@ == BroadcastState::initial(
                init.node_id@,
                names_of(init.node_ids@),
                names_of(order@),
            ),
    {
        let n = init.node_ids.len();
        let wanted = n / 2 + n % 2 + 1;
        let size = if wanted <= n {
            wanted
        } else {
            n
        };
        let mut neighborhood = order;
        neighborhood.truncate(size);
        let mut peers: Vec<Peer> = Vec::new();
        let mut i: usize = 0;
        while i < n
            invariant
                n == init.node_ids.len(),
                i <= n,
                peers.len() == i,
                forall|j: int|
                    0 <= j < i ==> (#[trigger] peers[j]).name@ == init.node_ids[j]@
                        && peers[j].known@ == Set::<usize>::empty(),
            decreases n - i,
        {
            peers.push(Peer { name: init.node_ids[i].clone(), known: HashSet::new() });
            i += 1;
        }
        let ghost all = init.node_ids@;
        let node = BroadcastNode {
            node_id: init.node_id,
            messages: HashSet::new(),
            neighborhood,
            peers,
        };
        proof {
            let want = BroadcastState::initial(
                init.node_id@,
                names_of(all),
                names_of(order@),
            );
            assert(node@.peers =~= want.peers);
            assert(node@.known =~= want.known);
            assert(node@.neighborhood =~= want.neighborhood);
        }
        node
    }

    /// A node believes something, if only nothing, of each of its peers.
    pub proof fn lemma_believes_of_each_peer(&self)
        ensures
            self@.known.len() == self@.peers.len(),
    {
    }

    fn find(&self, name: &str) -> (found: Option<usize>)
        ensures
            match found {
                Some(at) => first_of(self@.peers, name@) == Some(at as int) && at
                    < self.peers.len(),
                None => first_of(self@.peers, name@) == None::<int>,
            },
    {
        let mut at: usize = 0;
        while at < self.peers.len()
            invariant
                at <= self.peers.len(),
                forall|j: int| 0 <= j < at ==> #[trigger] self@.peers[j] != name@,
            decreases self.peers.len() - at,
        {
            if same_text(self.peers[at].name.as_str(), name) {
                proof {
                    assert(self@.peers[at as int] == name@);
                    lemma_first_of(self@.peers, name@);
                }
                return Some(at);
            }
            at += 1;
        }
        proof {
            lemma_first_of(self@.peers, name@);
        }
        None
    }

    /// Whether a node of this name was named in the handshake.
    pub fn is_peer(&self, name: &str) -> (yes: bool)
        ensures
            yes == (first_of(self@.peers, name@) is Some),
    {
        self.find(name).is_some()
    }

    /// Whether the node has seen `value`.
    pub fn has_seen(&self, value: usize) -> (yes: bool)
        ensures
            yes == self@.seen.contains(value),
    {
        self.messages.contains(&value)
    }

    /// How many values the node has seen.
    pub fn seen_count(&self) -> (n: usize)
        ensures
            n == self@.seen.len(),
    {
        self.messages.len()
    }

    /// Whether `peer` is believed to know `value`.
    pub fn believes_known(&self, peer: &str, value: usize) -> (yes: bool)
        ensures
            yes == self@.known_to(peer@).contains(value),
    {
        match self.find(peer) {
            Some(at) => self.peers[at].known.contains(&value),
            None => false,
        }
    }

    /// The nodes that this node gossips to.
    pub fn neighborhood(&self) -> (names: &Vec<String>)
        ensures
            names.deep_view() == self@.neighborhood,
    {
        &self.neighborhood
    }

    fn gossip_to(&self, at: usize) -> (message: Message<BroadcastPayload>)
        requires
            at < self.neighborhood.len(),
        ensures
            self@.gossips(at as int, message@),
    {
        let neighbor = self.neighborhood[at].clone();
        let seen = match self.find(neighbor.as_str()) {
            Some(slot) => notify(&self.messages, &self.peers[slot].known),
            None => {
                let nothing: HashSet<usize> = HashSet::new();
                notify(&self.messages, &nothing)
            },
        };
        Message {
            src: self.node_id.clone(),
            dst: neighbor,
            body: Body { id: None, in_reply_to: None, payload: BroadcastPayload::Gossip { seen } },
        }
    }

    /// Takes an event, changes the node accordingly, and returns the
    /// messages to send, in the order in which they are to be sent.
    pub fn step(&mut self, event: Event<BroadcastPayload, InjectedPayload>) -> (out: Vec<
        Message<BroadcastPayload>,
    >)
        ensures
            final(self)@ == old(self)@.received(event@),
            old(self)@.sends(event@, out.deep_view()),
    {
        let mut out: Vec<Message<BroadcastPayload>> = Vec::new();
        assert(out.deep_view() =~= Seq::empty());
        match event {
            Event::Storage(_) => {},
            Event::Injected(InjectedPayload::Gossip) => {
                let mut at: usize = 0;
                while at < self.neighborhood.len()
                    invariant
                        at <= self.neighborhood.len(),
                        out.len() == at,
                        forall|i: int|
                            0 <= i < at ==> self@.gossips(i, (#[trigger] out.deep_view()[i])),
                    decreases self.neighborhood.len() - at,
                {
                    let ghost sent = out.deep_view();
                    let message = self.gossip_to(at);
                    out.push(message);
                    assert(out.deep_view() =~= sent.push(message@));
                    at += 1;
                }
            },
            Event::Message(message) => {
                let ghost sender = message.src@;
                let (origin, payload) = message.open_reply();
                match payload {
                    BroadcastPayload::Gossip { seen } => {
                        match self.find(origin.dst.as_str()) {
                            Some(slot) => {
                                let peer = &mut self.peers[slot];
                                union_into(&mut peer.known, &seen);
                            },
                            None => {},
                        }
                        union_into(&mut self.messages, &seen);
                        assert(self@.known =~= old(self)@.hearing(sender, seen@).known);
                        assert(self@.peers =~= old(self)@.peers);
                    },
                    BroadcastPayload::Broadcast { message: value } => {
                        self.messages.insert(value);
                        let reply = origin.carrying(BroadcastPayload::BroadcastOk);
                        out.push(reply);
                        assert(out.deep_view() =~= seq![reply@]);
                    },
                    BroadcastPayload::Read => {
                        let messages = copy_of(&self.messages);
                        let reply = origin.carrying(BroadcastPayload::ReadOk { messages });
                        out.push(reply);
                        assert(out.deep_view() =~= seq![reply@]);
                    },
                    BroadcastPayload::Topology { .. } => {
                        let reply = origin.carrying(BroadcastPayload::TopologyOk);
                        out.push(reply);
                        assert(out.deep_view() =~= seq![reply@]);
                    },
                    _ => {},
                }
            },
        }
        out
    }
}

} // verus!
