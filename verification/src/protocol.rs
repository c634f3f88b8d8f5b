//! Envelopes and the handshake payloads.

use vstd::prelude::*;

verus! {

/// What travels inside an envelope: the correlation ids and the payload.
#[derive(Clone, Debug, PartialEq, Eq)]
pub struct Body<P> {
    /// Id that the sender gave this envelope, if it gave one.
    pub id: Option<usize>,
    /// Id of the envelope that this one answers, if it answers one.
    pub in_reply_to: Option<usize>,
    pub payload: P,
}

/// One envelope: who sent it, who is to receive it, and its body.
#[derive(Clone, Debug, PartialEq, Eq)]
pub struct Message<P> {
    pub src: String,
    pub dst: String,
    pub body: Body<P>,
}

/// The mathematical content of a [`Message`].
pub ghost struct Envelope<V> {
    pub src: Seq<char>,
    pub dst: Seq<char>,
    pub id: Option<usize>,
    pub in_reply_to: Option<usize>,
    pub payload: V,
}

impl<P: View> View for Message<P> {
    type V = Envelope<P::V>;

    open spec fn view(&self) -> Envelope<P::V> {
        Envelope {
            src: self.src@,
            dst: self.dst@,
            id: self.body.id,
            in_reply_to: self.body.in_reply_to,
            payload: self.body.payload@,
        }
    }
}

impl<P: View> DeepView for Message<P> {
    type V = Envelope<P::V>;

    open spec fn deep_view(&self) -> Envelope<P::V> {
        self.view()
    }
}

/// The header of the reply to `message`: source and destination change
/// places, and the reply answers the id of `message`.
pub open spec fn origin_of<V>(message: Envelope<V>) -> Envelope<()> {
    Envelope { src: message.dst, dst: message.src, id: None, in_reply_to: message.id, payload: () }
}

/// The envelope with the header `origin` around `payload`.
pub open spec fn answer_to<V>(origin: Envelope<()>, payload: V) -> Envelope<V> {
    Envelope {
        src: origin.src,
        dst: origin.dst,
        id: origin.id,
        in_reply_to: origin.in_reply_to,
        payload,
    }
}

impl Message<()> {
    /// Puts `payload` into this header.
    pub fn carrying<P: View>(self, payload: P) -> (message: Message<P>)
        ensures
            message@ == answer_to(self@, payload@),
            message.src == self.src,
            message.dst == self.dst,
            message.body.payload == payload,
    {
        Message {
            src: self.src,
            dst: self.dst,
            body: Body { id: self.body.id, in_reply_to: self.body.in_reply_to, payload },
        }
    }
}

impl<P: View> Message<P> {
    /// Takes a received envelope apart: the header of its reply, and its
    /// payload.
    pub fn open_reply(self) -> (parts: (Message<()>, P))
        ensures
            parts.0@ == origin_of(self@),
            parts.0.src == self.dst,
            parts.0.dst == self.src,
            parts.1 == self.body.payload,
    {
        let reply = self.into_reply();
        let header = Message {
            src: reply.src,
            dst: reply.dst,
            body: Body { id: None, in_reply_to: reply.body.in_reply_to, payload: () },
        };
        (header, reply.body.payload)
    }
}

impl<P> Message<P> {
    /// Turns a received envelope around: source and destination change
    /// places, the envelope's own id becomes the id that is answered, and the
    /// reply has no id of its own yet. The payload is carried over for the
    /// caller to replace.
    pub fn into_reply(self) -> (reply: Self)
        ensures
            reply.src == self.dst,
            reply.dst == self.src,
            reply.body.id == None::<usize>,
            reply.body.in_reply_to == self.body.id,
            reply.body.payload == self.body.payload,
    {
        Message {
            src: self.dst,
            dst: self.src,
            body: Body { id: None, in_reply_to: self.body.id, payload: self.body.payload },
        }
    }
}

/// What the handshake tells a node: its own name and the names of all nodes.
#[derive(Clone, Debug, PartialEq, Eq)]
pub struct Init {
    pub node_id: String,
    pub node_ids: Vec<String>,
}

/// The two payloads of the handshake.
#[derive(Clone, Debug, PartialEq, Eq)]
pub enum InitPayload {
    Init(Init),
    InitOk,
}

} // verus!
