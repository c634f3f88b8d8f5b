//! What arrives at a node, and how replies find the requests they answer.

use crate::protocol::{Body, Envelope, Message};
use crate::service::{is_storage_address, StoragePayload, StorageRecord};
use std::collections::HashMap;
use vstd::prelude::*;
use vstd::string::*;

verus! {

broadcast use vstd::std_specs::hash::group_hash_axioms;

/// What arrives from outside the node logic: an envelope whose payload has
/// not been interpreted yet, or something that a timer put in.
#[derive(Debug)]
pub enum NetworkEvent<M, IP> {
    Message(Message<M>),
    Injected(IP),
}

/// What a node's step is called with.
#[derive(Debug)]
pub enum Event<P, IP> {
    /// An envelope from a client or from another node.
    Message(Message<P>),
    /// Something that a timer put in.
    Injected(IP),
    /// An envelope to or from a storage service.
    Storage(Message<StoragePayload>),
}

/// The mathematical content of an [`Event`].
pub ghost enum EventView<PV, IV> {
    Message(Envelope<PV>),
    Injected(IV),
    Storage(Envelope<StorageRecord>),
}

impl<P: View, IP: View> View for Event<P, IP> {
    type V = EventView<P::V, IP::V>;

    open spec fn view(&self) -> EventView<P::V, IP::V> {
        match *self {
            Event::Message(message) => EventView::Message(message@),
            Event::Injected(payload) => EventView::Injected(payload@),
            Event::Storage(message) => EventView::Storage(message@),
        }
    }
}

/// Whether an envelope belongs to an exchange with a storage service: it
/// comes from one or goes to one.
pub fn is_storage_exchange<M>(message: &Message<M>) -> (yes: bool)
    ensures
        yes == (storage_address(message.src@) || storage_address(message.dst@)),
{
    is_storage_address(message.dst.as_str()) || is_storage_address(message.src.as_str())
}

/// Whether `address` names one of the two storage services.
pub open spec fn storage_address(address: Seq<char>) -> bool {
    address == crate::service::LINEAR_STORE_ADDRESS@ || address
        == crate::service::SEQUENTIAL_STORE_ADDRESS@
}

/// Gives outgoing envelopes their ids and remembers who waits for which
/// reply.
///
/// `W` is whatever resolves a wait: the correlator keeps it from the moment a
/// request is sent and hands it out, once, when the reply arrives.
#[derive(Debug)]
pub struct Correlator<W> {
    next_id: usize,
    waiting: HashMap<usize, W>,
}

/// Where an incoming event goes.
#[derive(Debug)]
pub enum Routed<M, IP, W> {
    /// The envelope answers a request that somebody waits on: hand it to
    /// `waiter`. The wait is over; a second reply to the same request will
    /// not find it.
    Reply { waiter: W, message: Message<M> },
    /// The envelope answers something, and nobody waits for it: drop it.
    Unmatched { message: Message<M> },
    /// Anything else is for the node to step on.
    Fresh { event: NetworkEvent<M, IP> },
}

impl<W> Correlator<W> {
    /// How many ids were given out: the next id.
    pub closed spec fn issued(&self) -> nat {
        self.next_id as nat
    }

    /// The waits that are on, by the id of the request.
    pub closed spec fn pending(&self) -> Map<usize, W> {
        self.waiting@
    }

    /// Every wait is for a request that was sent.
    pub open spec fn well_formed(&self) -> bool {
        forall|id: usize| self.pending().contains_key(id) ==> id < self.issued()
    }

    /// A correlator that has given out no id and knows of no wait.
    pub fn new() -> (correlator: Self)
        ensures
            correlator.issued() == 0,
            correlator.pending() == Map::<usize, W>::empty(),
            correlator.well_formed(),
    {
        Correlator { next_id: 0, waiting: HashMap::new() }
    }

    /// Whether an id is left to give out.
    pub fn has_ids(&self) -> (yes: bool)
        ensures
            yes == (self.issued() < usize::MAX),
    {
        self.next_id < usize::MAX
    }

    /// Gives out the next id. Ids count up from zero; none is given out
    /// twice.
    pub fn next_message_id(&mut self) -> (id: usize)
        requires
            old(self).issued() < usize::MAX,
        ensures
            id == old(self).issued(),
            final(self).issued() == old(self).issued() + 1,
            final(self).pending() == old(self).pending(),
    {
        let id = self.next_id;
        self.next_id = id + 1;
        id
    }

    /// Prepares an envelope for sending: it gets the next id. The envelope
    /// is returned for the transport to write.
    pub fn send<P>(&mut self, message: Message<P>) -> (stamped: Message<P>)
        requires
            old(self).issued() < usize::MAX,
        ensures
            stamped.src == message.src,
            stamped.dst == message.dst,
            stamped.body.id == Some(old(self).issued() as usize),
            stamped.body.in_reply_to == message.body.in_reply_to,
            stamped.body.payload == message.body.payload,
            final(self).issued() == old(self).issued() + 1,
            final(self).pending() == old(self).pending(),
    {
        let id = self.next_message_id();
        Message {
            src: message.src,
            dst: message.dst,
            body: Body {
                id: Some(id),
                in_reply_to: message.body.in_reply_to,
                payload: message.body.payload,
            },
        }
    }

    /// Prepares a request: the envelope gets the next id, and `waiter` waits
    /// for the reply to that id.
    pub fn request<P>(&mut self, message: Message<P>, waiter: W) -> (stamped: Message<P>)
        requires
            old(self).issued() < usize::MAX,
        ensures
            stamped.src == message.src,
            stamped.dst == message.dst,
            stamped.body.id == Some(old(self).issued() as usize),
            stamped.body.in_reply_to == message.body.in_reply_to,
            stamped.body.payload == message.body.payload,
            final(self).issued() == old(self).issued() + 1,
            final(self).pending() == old(self).pending().insert(
                old(self).issued() as usize,
                waiter,
            ),
            old(self).well_formed() ==> final(self).well_formed(),
            old(self).well_formed() ==> !old(self).pending().contains_key(
                old(self).issued() as usize,
            ),
    {
        let stamped = self.send(message);
        self.waiting.insert(self.next_id - 1, waiter);
        stamped
    }

    /// Ends the wait for the reply to `in_reply_to`, if one is on, and hands
    /// out what waited.
    pub fn is_response(&mut self, in_reply_to: Option<usize>) -> (waiter: Option<W>)
        ensures
            final(self).issued() == old(self).issued(),
            old(self).well_formed() ==> final(self).well_formed(),
            match in_reply_to {
                Some(id) => if old(self).pending().contains_key(id) {
                    &&& waiter == Some(old(self).pending()[id])
                    &&& final(self).pending() == old(self).pending().remove(id)
                } else {
                    &&& waiter is None
                    &&& final(self).pending() == old(self).pending()
                },
                None => waiter is None && final(self).pending() == old(self).pending(),
            },
    {
        match in_reply_to {
            Some(id) => {
                let waiter = self.waiting.remove(&id);
                proof {
                    if waiter is None {
                        assert(self.waiting@ =~= old(self).waiting@);
                    }
                    assert forall|other: usize|
                        self.pending().contains_key(other) implies old(
                        self,
                    ).pending().contains_key(other) by {
                        assert(self.waiting@ == old(self).waiting@.remove(id));
                    }
                }
                waiter
            },
            None => None,
        }
    }

    /// Says where an incoming event goes.
    ///
    /// An envelope that answers a request on which somebody waits goes to the
    /// one who waits, and the wait is over. An envelope that answers
    /// something else is unmatched. Everything else is for the node.
    pub fn recv<M, IP>(&mut self, event: NetworkEvent<M, IP>) -> (routed: Routed<M, IP, W>)
        ensures
            final(self).issued() == old(self).issued(),
            old(self).well_formed() ==> final(self).well_formed(),
            match event {
                NetworkEvent::Message(message) => match message.body.in_reply_to {
                    Some(id) => if old(self).pending().contains_key(id) {
                        &&& routed == (Routed::<M, IP, W>::Reply {
                            waiter: old(self).pending()[id],
                            message,
                        })
                        &&& final(self).pending() == old(self).pending().remove(id)
                    } else {
                        &&& routed == (Routed::<M, IP, W>::Unmatched { message })
                        &&& final(self).pending() == old(self).pending()
                    },
                    None => {
                        &&& routed == (Routed::<M, IP, W>::Fresh { event })
                        &&& final(self).pending() == old(self).pending()
                    },
                },
                NetworkEvent::Injected(_) => {
                    &&& routed == (Routed::<M, IP, W>::Fresh { event })
                    &&& final(self).pending() == old(self).pending()
                },
            },
    {
        match event {
            NetworkEvent::Message(message) => {
                let answers = message.body.in_reply_to;
                match self.is_response(answers) {
                    Some(waiter) => Routed::Reply { waiter, message },
                    None => match answers {
                        Some(_) => Routed::Unmatched { message },
                        None => Routed::Fresh { event: NetworkEvent::Message(message) },
                    },
                }
            },
            NetworkEvent::Injected(payload) => Routed::Fresh {
                event: NetworkEvent::Injected(payload),
            },
        }
    }
}

} // verus!
