//! The echo node: it sends back what it is sent.

use crate::network::{Event, EventView};
use crate::protocol::{answer_to, origin_of, Envelope, Init, Message};
use vstd::prelude::*;
use vstd::string::*;

verus! {

/// What a client says to the echo node, and what it answers.
#[derive(Clone, Debug, PartialEq, Eq)]
pub enum EchoPayload {
    Echo { echo: String },
    EchoOk { echo: String },
}

/// The mathematical content of an [`EchoPayload`].
pub ghost enum EchoRecord {
    Echo { echo: Seq<char> },
    EchoOk { echo: Seq<char> },
}

impl View for EchoPayload {
    type V = EchoRecord;

    open spec fn view(&self) -> EchoRecord {
        match *self {
            EchoPayload::Echo { echo } => EchoRecord::Echo { echo: echo@ },
            EchoPayload::EchoOk { echo } => EchoRecord::EchoOk { echo: echo@ },
        }
    }
}

/// The echo node. It keeps nothing.
#[derive(Clone, Copy, Debug)]
pub struct EchoNode {}

/// What the echo node answers to `event`: the text of an `Echo`, and nothing
/// to anything else.
pub open spec fn echoed(event: EventView<EchoRecord, ()>) -> Option<Envelope<EchoRecord>> {
    match event {
        EventView::Message(message) => match message.payload {
            EchoRecord::Echo { echo } => Some(
                answer_to(origin_of(message), EchoRecord::EchoOk { echo }),
            ),
            _ => None,
        },
        _ => None,
    }
}

impl EchoNode {
    pub fn from_init(_init: Init) -> (node: Self) {
        EchoNode {  }
    }

    /// Takes an event and returns the answer to send, if one is due.
    pub fn step(&mut self, input: Event<EchoPayload, ()>) -> (reply: Option<Message<EchoPayload>>)
        ensures
            reply.deep_view() == echoed(input@),
    {
        match input {
            Event::Message(message) => {
                let (origin, payload) = message.open_reply();
                match payload {
                    EchoPayload::Echo { echo } => Some(
                        origin.carrying(EchoPayload::EchoOk { echo }),
                    ),
                    EchoPayload::EchoOk { .. } => None,
                }
            },
            _ => None,
        }
    }
}

} // verus!
