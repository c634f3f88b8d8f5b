//! What holds of broadcast whatever the order in which messages are sent
//! and delivered.

use crate::broadcast::model::BroadcastState;
use crate::broadcast::payload::BroadcastRecord;
use crate::network::EventView;
use crate::protocol::Envelope;
use crate::text::{first_of, lemma_first_of};
use vstd::prelude::*;

verus! {

/// What a node believes of a peer after it has heard gossip: the values are
/// added to what the sender is believed to know, and nothing else changes.
pub proof fn lemma_known_after_hearing(
    node: BroadcastState,
    sender: Seq<char>,
    values: Set<usize>,
    peer: Seq<char>,
)
    requires
        node.known.len() == node.peers.len(),
    ensures
        node.hearing(sender, values).known_to(peer) == if peer == sender && first_of(
            node.peers,
            sender,
        ) is Some {
            node.known_to(peer).union(values)
        } else {
            node.known_to(peer)
        },
        node.hearing(sender, values).known.len() == node.known.len(),
        node.hearing(sender, values).seen == node.seen.union(values),
        node.hearing(sender, values).peers == node.peers,
        node.hearing(sender, values).node_id == node.node_id,
        node.hearing(sender, values).neighborhood == node.neighborhood,
{
    lemma_first_of(node.peers, sender);
    lemma_first_of(node.peers, peer);
}

/// Gossip is idempotent.
///
/// A node that hears the same gossip a second time is left as it was after
/// the first time: it has seen the same values, and believes the same of
/// every peer.
pub proof fn lemma_gossip_is_idempotent(node: BroadcastState, sender: Seq<char>, values: Set<usize>)
    requires
        node.known.len() == node.peers.len(),
    ensures
        node.hearing(sender, values).hearing(sender, values) == node.hearing(sender, values),
        node.hearing(sender, values).hearing(sender, values).seen == node.seen.union(values),
{
    let once = node.hearing(sender, values);
    let twice = once.hearing(sender, values);
    lemma_first_of(node.peers, sender);
    assert(twice.seen =~= once.seen);
    assert(twice.known =~= once.known) by {
        match first_of(node.peers, sender) {
            Some(at) => {
                assert(once.known[at].union(values) =~= once.known[at]);
            },
            None => {},
        }
    }
    assert(twice =~= once);
}

/// The same, said of the event: a gossip message that is delivered twice
/// leaves the node as it was after the first delivery.
pub proof fn lemma_gossip_delivered_twice(
    node: BroadcastState,
    message: Envelope<BroadcastRecord>,
)
    requires
        node.known.len() == node.peers.len(),
        message.payload is Gossip,
    ensures
        node.received(EventView::Message(message)).received(EventView::Message(message))
            == node.received(EventView::Message(message)),
{
    lemma_gossip_is_idempotent(node, message.src, message.payload->seen);
}

/// A gossip message that was sent, with what is needed to follow it.
pub ghost struct Flight {
    /// The position of the sender among the nodes.
    pub from: int,
    pub envelope: Envelope<BroadcastRecord>,
    /// What the sender had seen when it sent the message.
    pub basis: Set<usize>,
    /// The nodes of which the sender had heard when it sent the message.
    pub carries: Set<int>,
}

/// What can happen among the nodes.
pub ghost enum Move {
    /// A client broadcasts `value` at the node at position `node`.
    Broadcast { node: int, value: usize },
    /// The node at position `from` sends gossip to the neighbor at position
    /// `at` of its neighborhood.
    Send { from: int, at: int, payload: Set<usize> },
    /// The message at position `flight` of those sent arrives at the node at
    /// position `to`. A message may arrive late, more than once, or never.
    Deliver { flight: int, to: int },
}

/// The nodes and the messages that they have sent.
pub ghost struct World {
    pub nodes: Seq<BroadcastState>,
    /// All gossip messages that were ever sent.
    pub sent: Seq<Flight>,
    /// For each node, the nodes of which it has heard since the world was
    /// last marked: itself, and every node of which the sender of a message
    /// that was delivered to it had heard.
    pub heard: Seq<Set<int>>,
}

/// The gossip message from `node` to the neighbor at position `at`.
pub open spec fn gossip_envelope(node: BroadcastState, at: int, payload: Set<usize>) -> Envelope<
    BroadcastRecord,
> {
    Envelope {
        src: node.node_id,
        dst: node.neighborhood[at],
        id: None,
        in_reply_to: None,
        payload: BroadcastRecord::Gossip { seen: payload },
    }
}

/// The envelope in which a client broadcasts `value` at `node`.
pub open spec fn broadcast_envelope(node: BroadcastState, value: usize) -> Envelope<
    BroadcastRecord,
> {
    Envelope {
        src: Seq::empty(),
        dst: node.node_id,
        id: None,
        in_reply_to: None,
        payload: BroadcastRecord::Broadcast { message: value },
    }
}

impl World {
    /// The nodes have different names, each believes something of each of
    /// its peers, and the messages are gossip of the nodes.
    pub open spec fn well_formed(self) -> bool {
        &&& self.heard.len() == self.nodes.len()
        &&& forall|a: int, b: int|
            0 <= a < b < self.nodes.len() ==> (#[trigger] self.nodes[a]).node_id != (
            #[trigger] self.nodes[b]).node_id
        &&& forall|a: int|
            0 <= a < self.nodes.len() ==> (#[trigger] self.nodes[a]).known.len()
                == self.nodes[a].peers.len()
        &&& forall|k: int|
            0 <= k < self.sent.len() ==> {
                &&& 0 <= (#[trigger] self.sent[k]).from < self.nodes.len()
                &&& self.sent[k].envelope.src == self.nodes[self.sent[k].from].node_id
                &&& self.sent[k].envelope.payload is Gossip
            }
    }

    /// Whether `m` can happen.
    pub open spec fn allows(self, m: Move) -> bool {
        match m {
            Move::Broadcast { node, .. } => 0 <= node < self.nodes.len(),
            Move::Send { from, at, payload } => {
                &&& 0 <= from < self.nodes.len()
                &&& 0 <= at < self.nodes[from].neighborhood.len()
                &&& self.nodes[from].gossips(at, gossip_envelope(self.nodes[from], at, payload))
            },
            Move::Deliver { flight, to } => {
                &&& 0 <= flight < self.sent.len()
                &&& 0 <= to < self.nodes.len()
                &&& self.nodes[to].node_id == self.sent[flight].envelope.dst
            },
        }
    }

    /// The world after `m`. A move that cannot happen changes nothing.
    pub open spec fn step(self, m: Move) -> World {
        if !self.allows(m) {
            self
        } else {
            match m {
                Move::Broadcast { node, value } => World {
                    nodes: self.nodes.update(
                        node,
                        self.nodes[node].received(
                            EventView::Message(broadcast_envelope(self.nodes[node], value)),
                        ),
                    ),
                    ..self
                },
                Move::Send { from, at, payload } => World {
                    sent: self.sent.push(
                        Flight {
                            from,
                            envelope: gossip_envelope(self.nodes[from], at, payload),
                            basis: self.nodes[from].seen,
                            carries: self.heard[from],
                        },
                    ),
                    ..self
                },
                Move::Deliver { flight, to } => World {
                    nodes: self.nodes.update(
                        to,
                        self.nodes[to].received(EventView::Message(self.sent[flight].envelope)),
                    ),
                    heard: self.heard.update(
                        to,
                        self.heard[to].union(self.sent[flight].carries),
                    ),
                    ..self
                },
            }
        }
    }

    /// The world after the moves of `schedule`, in their order.
    pub open spec fn run(self, schedule: Seq<Move>) -> World
        decreases schedule.len(),
    {
        if schedule.len() == 0 {
            self
        } else {
            self.run(schedule.drop_last()).step(schedule.last())
        }
    }

    /// Nobody is believed to know what it has not seen, and no message holds
    /// what its sender has not seen or leaves out what its receiver lacks.
    pub open spec fn honest(self) -> bool {
        &&& forall|a: int, b: int|
            0 <= a < self.nodes.len() && 0 <= b < self.nodes.len() ==> (
            #[trigger] self.nodes[a]).known_to((#[trigger] self.nodes[b]).node_id).subset_of(
                self.nodes[b].seen,
            )
        &&& forall|k: int|
            0 <= k < self.sent.len() ==> ((
            #[trigger] self.sent[k]).envelope.payload->seen).subset_of(
                self.nodes[self.sent[k].from].seen,
            )
        &&& forall|k: int, b: int|
            0 <= k < self.sent.len() && 0 <= b < self.nodes.len() && (
            #[trigger] self.nodes[b]).node_id == (#[trigger] self.sent[k]).envelope.dst
                ==> self.sent[k].basis.subset_of(
                (self.sent[k].envelope.payload->seen).union(self.nodes[b].seen),
            )
    }

    /// Every node has seen what the nodes of which it has heard had seen in
    /// `start`, and every message was sent by a node that had.
    pub open spec fn follows(self, start: Seq<Set<usize>>) -> bool {
        &&& start.len() == self.nodes.len()
        &&& forall|k: int, a: int|
            0 <= k < self.sent.len() && #[trigger] self.sent[k].carries.contains(a) ==> 0 <= a
                < self.nodes.len() && start[a].subset_of(self.sent[k].basis)
        &&& forall|b: int, a: int|
            0 <= b < self.nodes.len() && #[trigger] self.heard[b].contains(a) ==> 0 <= a
                < self.nodes.len() && start[a].subset_of(self.nodes[b].seen)
    }

    /// No node has seen a value that is not in `all`.
    pub open spec fn within(self, all: Set<usize>) -> bool {
        forall|b: int| 0 <= b < self.nodes.len() ==> (#[trigger] self.nodes[b]).seen.subset_of(all)
    }

    /// What each node has seen.
    pub open spec fn seen(self) -> Seq<Set<usize>> {
        Seq::new(self.nodes.len(), |b: int| self.nodes[b].seen)
    }

    /// This world, marked: from now on it is followed of whom each node
    /// hears. Every node has heard of itself; the messages that are under way
    /// count for nothing.
    pub open spec fn marked(self) -> World {
        World {
            nodes: self.nodes,
            sent: Seq::new(
                self.sent.len(),
                |k: int| Flight { carries: Set::empty(), ..self.sent[k] },
            ),
            heard: Seq::new(self.nodes.len(), |b: int| set![b]),
        }
    }

    /// One move keeps the world well formed and honest.
    pub proof fn lemma_step_keeps_honest(self, m: Move)
        requires
            self.well_formed(),
            self.honest(),
        ensures
            self.step(m).well_formed(),
            self.step(m).honest(),
    {
        let next = self.step(m);
        if self.allows(m) {
            match m {
                Move::Broadcast { node, value } => {
                    assert forall|a: int, b: int|
                        0 <= a < next.nodes.len() && 0 <= b < next.nodes.len() implies (
                    #[trigger] next.nodes[a]).known_to(
                        (#[trigger] next.nodes[b]).node_id,
                    ).subset_of(next.nodes[b].seen) by {
                        assert(self.nodes[a].known_to(self.nodes[b].node_id).subset_of(
                            self.nodes[b].seen,
                        ));
                    }
                    assert forall|k: int, b: int|
                        0 <= k < next.sent.len() && 0 <= b < next.nodes.len() && (
                        #[trigger] next.nodes[b]).node_id == (
                        #[trigger] next.sent[k]).envelope.dst implies next.sent[k].basis.subset_of(
                        (next.sent[k].envelope.payload->seen).union(next.nodes[b].seen),
                    ) by {
                        assert(self.nodes[b].node_id == self.sent[k].envelope.dst);
                    }
                },
                Move::Send { from, at, payload } => {
                    let node = self.nodes[from];
                    let last = self.sent.len() as int;
                    assert forall|k: int, b: int|
                        0 <= k < next.sent.len() && 0 <= b < next.nodes.len() && (
                        #[trigger] next.nodes[b]).node_id == (
                        #[trigger] next.sent[k]).envelope.dst implies next.sent[k].basis.subset_of(
                        (next.sent[k].envelope.payload->seen).union(next.nodes[b].seen),
                    ) by {
                        if k == last {
                            assert(self.nodes[from].known_to(self.nodes[b].node_id).subset_of(
                                self.nodes[b].seen,
                            ));
                        } else {
                            assert(self.nodes[b].node_id == self.sent[k].envelope.dst);
                        }
                    }
                },
                Move::Deliver { flight, to } => {
                    let letter = self.sent[flight];
                    let values = letter.envelope.payload->seen;
                    let sender = letter.envelope.src;
                    let before = self.nodes[to];
                    assert(next.nodes[to] == before.hearing(sender, values));
                    assert forall|a: int, b: int|
                        0 <= a < next.nodes.len() && 0 <= b < next.nodes.len() implies (
                    #[trigger] next.nodes[a]).known_to(
                        (#[trigger] next.nodes[b]).node_id,
                    ).subset_of(next.nodes[b].seen) by {
                        assert(self.nodes[a].known_to(self.nodes[b].node_id).subset_of(
                            self.nodes[b].seen,
                        ));
                        lemma_known_after_hearing(before, sender, values, self.nodes[b].node_id);
                        if a == to && self.nodes[b].node_id == sender {
                            assert(b == letter.from);
                        }
                    }
                    lemma_known_after_hearing(before, sender, values, sender);
                    assert forall|k: int, b: int|
                        0 <= k < next.sent.len() && 0 <= b < next.nodes.len() && (
                        #[trigger] next.nodes[b]).node_id == (
                        #[trigger] next.sent[k]).envelope.dst implies next.sent[k].basis.subset_of(
                        (next.sent[k].envelope.payload->seen).union(next.nodes[b].seen),
                    ) by {
                        assert(self.nodes[b].node_id == self.sent[k].envelope.dst);
                    }
                },
            }
        }
    }

    /// One move that is no broadcast keeps what is followed, and brings no
    /// value into the world.
    pub proof fn lemma_step_follows(self, start: Seq<Set<usize>>, all: Set<usize>, m: Move)
        requires
            self.well_formed(),
            self.honest(),
            self.follows(start),
            self.within(all),
            !(m is Broadcast),
        ensures
            self.step(m).follows(start),
            self.step(m).within(all),
    {
        let next = self.step(m);
        if self.allows(m) {
            match m {
                Move::Broadcast { .. } => {},
                Move::Send { from, at, payload } => {
                    let last = self.sent.len() as int;
                    assert forall|k: int, a: int|
                        0 <= k < next.sent.len() && #[trigger] next.sent[k].carries.contains(
                            a,
                        ) implies 0 <= a < next.nodes.len() && start[a].subset_of(
                        next.sent[k].basis,
                    ) by {
                        if k == last {
                            assert(self.heard[from].contains(a));
                        } else {
                            assert(self.sent[k].carries.contains(a));
                        }
                    }
                },
                Move::Deliver { flight, to } => {
                    let letter = self.sent[flight];
                    let values = letter.envelope.payload->seen;
                    let before = self.nodes[to];
                    lemma_known_after_hearing(
                        before,
                        letter.envelope.src,
                        values,
                        letter.envelope.src,
                    );
                    assert(next.nodes[to].seen == before.seen.union(values));
                    assert forall|b: int, a: int|
                        0 <= b < next.nodes.len() && #[trigger] next.heard[b].contains(
                            a,
                        ) implies 0 <= a < next.nodes.len() && start[a].subset_of(
                        next.nodes[b].seen,
                    ) by {
                        if b == to {
                            if self.heard[to].contains(a) {
                            } else {
                                assert(letter.carries.contains(a));
                                assert(start[a].subset_of(letter.basis));
                                assert(letter.basis.subset_of(values.union(before.seen)));
                            }
                        } else {
                            assert(self.heard[b].contains(a));
                        }
                    }
                    assert(values.subset_of(self.nodes[letter.from].seen));
                },
            }
        }
    }

    /// Every schedule keeps the world well formed and honest.
    pub proof fn lemma_run_keeps_honest(self, schedule: Seq<Move>)
        requires
            self.well_formed(),
            self.honest(),
        ensures
            self.run(schedule).well_formed(),
            self.run(schedule).honest(),
        decreases schedule.len(),
    {
        if schedule.len() > 0 {
            self.lemma_run_keeps_honest(schedule.drop_last());
            self.run(schedule.drop_last()).lemma_step_keeps_honest(schedule.last());
        }
    }

    /// Every schedule without broadcasts keeps what is followed.
    pub proof fn lemma_run_follows(
        self,
        start: Seq<Set<usize>>,
        all: Set<usize>,
        schedule: Seq<Move>,
    )
        requires
            self.well_formed(),
            self.honest(),
            self.follows(start),
            self.within(all),
            forall|i: int| 0 <= i < schedule.len() ==> !((#[trigger] schedule[i]) is Broadcast),
        ensures
            self.run(schedule).follows(start),
            self.run(schedule).within(all),
        decreases schedule.len(),
    {
        if schedule.len() > 0 {
            let front = schedule.drop_last();
            assert(forall|i: int| 0 <= i < front.len() ==> front[i] == schedule[i]);
            self.lemma_run_follows(start, all, front);
            self.lemma_run_keeps_honest(front);
            self.run(front).lemma_step_follows(start, all, schedule.last());
        }
    }
}

/// The values that some node has seen.
pub open spec fn seen_anywhere(seen: Seq<Set<usize>>) -> Set<usize> {
    Set::new(|v: usize| exists|a: int| 0 <= a < seen.len() && (#[trigger] seen[a]).contains(v))
}

/// Nodes that have seen nothing and sent nothing make an honest world.
pub proof fn lemma_fresh_world_is_honest(world: World)
    requires
        world.well_formed(),
        world.sent.len() == 0,
        forall|a: int|
            0 <= a < world.nodes.len() ==> (#[trigger] world.nodes[a]).known == Seq::new(
                world.nodes[a].peers.len(),
                |i: int| Set::<usize>::empty(),
            ),
    ensures
        world.honest(),
{
    assert forall|a: int, b: int|
        0 <= a < world.nodes.len() && 0 <= b < world.nodes.len() implies (
    #[trigger] world.nodes[a]).known_to((#[trigger] world.nodes[b]).node_id).subset_of(
        world.nodes[b].seen,
    ) by {
        lemma_first_of(world.nodes[a].peers, world.nodes[b].node_id);
    }
}

/// Gossip converges.
///
/// Take any honest world: nodes that started with nothing seen and nothing
/// sent, after any broadcasts, sendings and deliveries. From then on let
/// gossip be sent and delivered in any order, late, more than once or not at
/// all, while no further value is broadcast. Then a node has seen all that
/// another had seen at the start as soon as it has heard of that node, directly
/// or through others. A node that has heard of every node has seen exactly the
/// values that were seen anywhere at the start, and so have all nodes once
/// each has heard of each.
pub proof fn lemma_gossip_converges(world: World, schedule: Seq<Move>)
    requires
        world.well_formed(),
        world.honest(),
        forall|i: int| 0 <= i < schedule.len() ==> !((#[trigger] schedule[i]) is Broadcast),
    ensures
        ({
            let after = world.marked().run(schedule);
            &&& after.nodes.len() == world.nodes.len()
            &&& forall|b: int, a: int|
                0 <= b < after.nodes.len() && #[trigger] after.heard[b].contains(a) ==> 0 <= a
                    < world.nodes.len() && world.nodes[a].seen.subset_of(after.nodes[b].seen)
            &&& forall|b: int|
                0 <= b < after.nodes.len() && (forall|a: int|
                    0 <= a < world.nodes.len() ==> #[trigger] after.heard[b].contains(a))
                    ==> (#[trigger] after.nodes[b]).seen == seen_anywhere(world.seen())
        }),
{
    let begin = world.marked();
    let start = world.seen();
    let all = seen_anywhere(start);
    assert(begin.well_formed());
    assert(begin.honest()) by {
        assert forall|k: int, b: int|
            0 <= k < begin.sent.len() && 0 <= b < begin.nodes.len() && (
            #[trigger] begin.nodes[b]).node_id == (
            #[trigger] begin.sent[k]).envelope.dst implies begin.sent[k].basis.subset_of(
            (begin.sent[k].envelope.payload->seen).union(begin.nodes[b].seen),
        ) by {
            assert(world.nodes[b].node_id == world.sent[k].envelope.dst);
        }
        assert forall|k: int| 0 <= k < begin.sent.len() implies ((
        #[trigger] begin.sent[k]).envelope.payload->seen).subset_of(
            begin.nodes[begin.sent[k].from].seen,
        ) by {
            assert((world.sent[k].envelope.payload->seen).subset_of(
                world.nodes[world.sent[k].from].seen,
            ));
        }
    }
    assert(begin.follows(start));
    assert(begin.within(all)) by {
        assert forall|b: int| 0 <= b < begin.nodes.len() implies (
        #[trigger] begin.nodes[b]).seen.subset_of(all) by {
            assert forall|v: usize| begin.nodes[b].seen.contains(v) implies all.contains(v) by {
                assert(start[b].contains(v));
            }
        }
    }
    begin.lemma_run_follows(start, all, schedule);
    begin.lemma_run_keeps_honest(schedule);
    let after = begin.run(schedule);
    lemma_run_keeps_nodes(begin, schedule);
    assert forall|b: int, a: int|
        0 <= b < after.nodes.len() && #[trigger] after.heard[b].contains(a) implies 0 <= a
        < world.nodes.len() && world.nodes[a].seen.subset_of(after.nodes[b].seen) by {
        assert(start[a].subset_of(after.nodes[b].seen));
    }
    assert forall|b: int|
        0 <= b < after.nodes.len() && (forall|a: int|
            0 <= a < world.nodes.len() ==> #[trigger] after.heard[b].contains(a)) implies (
    #[trigger] after.nodes[b]).seen == seen_anywhere(world.seen()) by {
        assert forall|v: usize| all.contains(v) implies after.nodes[b].seen.contains(v) by {
            let a = choose|a: int| 0 <= a < start.len() && (#[trigger] start[a]).contains(v);
            assert(after.heard[b].contains(a));
            assert(start[a].subset_of(after.nodes[b].seen));
        }
        assert(after.nodes[b].seen.subset_of(all));
        assert(after.nodes[b].seen =~= all);
    }
}

/// No move changes how many nodes there are.
pub proof fn lemma_run_keeps_nodes(world: World, schedule: Seq<Move>)
    ensures
        world.run(schedule).nodes.len() == world.nodes.len(),
    decreases schedule.len(),
{
    if schedule.len() > 0 {
        lemma_run_keeps_nodes(world, schedule.drop_last());
    }
}

} // verus!
