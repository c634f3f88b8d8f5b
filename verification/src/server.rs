//! The start of a node's life: the handshake.

use crate::network::Correlator;
use crate::protocol::{Body, Init, InitPayload, Message};
use vstd::pervasive::unreached;
use vstd::prelude::*;

verus! {

/// What serves a node: the correlator through which everything that the node
/// sends gets its id.
#[derive(Debug)]
pub struct Server<W> {
    network: Correlator<W>,
}

impl<W> Default for Server<W> {
    fn default() -> (server: Self)
        ensures
            server.correlator().issued() == 0,
            server.correlator().pending() == Map::<usize, W>::empty(),
            server.correlator().well_formed(),
    {
        Server { network: Correlator::new() }
    }
}

impl<W> Server<W> {
    /// The correlator.
    pub closed spec fn correlator(&self) -> Correlator<W> {
        self.network
    }

    /// A server that has sent nothing yet.
    pub fn new() -> (server: Self)
        ensures
            server.correlator().issued() == 0,
            server.correlator().pending() == Map::<usize, W>::empty(),
            server.correlator().well_formed(),
    {
        Self::default()
    }

    /// Gives the correlator up, for whoever serves the node from now on.
    pub fn into_network(self) -> (network: Correlator<W>)
        ensures
            network == self.correlator(),
    {
        self.network
    }

    /// The correlator, for sending and for routing what arrives.
    pub fn network(&mut self) -> (network: &mut Correlator<W>)
        ensures
            *network == old(self).correlator(),
            final(self).correlator() == *final(network),
    {
        &mut self.network
    }

    /// Answers the handshake: hands out what it says of the node, for the
    /// node to be made from, and the confirmation to send, with its id.
    pub fn construct_node(&mut self, init_msg: Message<InitPayload>) -> (made: (
        Init,
        Message<InitPayload>,
    ))
        requires
            init_msg.body.payload is Init,
            old(self).correlator().issued() < usize::MAX,
        ensures
            made.0 == init_msg.body.payload->Init_0,
            made.1.src == init_msg.dst,
            made.1.dst == init_msg.src,
            made.1.body.id == Some(old(self).correlator().issued() as usize),
            made.1.body.in_reply_to == init_msg.body.id,
            made.1.body.payload is InitOk,
            final(self).correlator().issued() == old(self).correlator().issued() + 1,
            final(self).correlator().pending() == old(self).correlator().pending(),
    {
        let reply = init_msg.into_reply();
        let Message { src, dst, body } = reply;
        let in_reply_to = body.in_reply_to;
        match body.payload {
            InitPayload::Init(init) => {
                let confirmation = Message {
                    src,
                    dst,
                    body: Body { id: None, in_reply_to, payload: InitPayload::InitOk },
                };
                (init, self.network.send(confirmation))
            },
            InitPayload::InitOk => unreached(),
        }
    }
}

} // verus!
