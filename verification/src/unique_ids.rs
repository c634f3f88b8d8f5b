//! The node that hands out ids: its own name and a number that counts up.

use crate::protocol::{answer_to, origin_of, Envelope, Init, Message};
use crate::text::{decimal, decimal_string, join};
use vstd::prelude::*;
use vstd::string::*;

verus! {

/// What a client says to the node, and what it answers.
#[derive(Clone, Debug, PartialEq, Eq)]
pub enum UniqueIdPayload {
    Generate,
    GenerateOk { id: String },
}

/// The mathematical content of a [`UniqueIdPayload`].
pub ghost enum UniqueIdRecord {
    Generate,
    GenerateOk { id: Seq<char> },
}

impl View for UniqueIdPayload {
    type V = UniqueIdRecord;

    open spec fn view(&self) -> UniqueIdRecord {
        match *self {
            UniqueIdPayload::Generate => UniqueIdRecord::Generate,
            UniqueIdPayload::GenerateOk { id } => UniqueIdRecord::GenerateOk { id: id@ },
        }
    }
}

/// The node that hands out ids.
#[derive(Debug)]
pub struct UniqueIdNode {
    node: String,
    id: usize,
}

/// The id that is made of a node's name and a number.
pub open spec fn unique_id(node: Seq<char>, number: nat) -> Seq<char> {
    node + "-"@ + decimal(number)
}

impl UniqueIdNode {
    /// The node's name.
    pub closed spec fn name(&self) -> Seq<char> {
        self.node@
    }

    /// The number of the next envelope that the node sends.
    pub closed spec fn count(&self) -> nat {
        self.id as nat
    }

    /// The node that the handshake describes. It counts from one.
    pub fn from_init(init: Init) -> (node: Self)
        ensures
            node.name() == init.node_id@,
            node.count() == 1,
    {
        UniqueIdNode { node: init.node_id, id: 1 }
    }

    /// Whether the node can count one more envelope.
    pub fn can_count(&self) -> (yes: bool)
        ensures
            yes == (self.count() < usize::MAX),
    {
        self.id < usize::MAX
    }

    /// Takes an envelope and returns the answer to send, if one is due.
    ///
    /// Every envelope is counted. A `Generate` is answered with an envelope
    /// that has the count before as its id, and holds the id made of the
    /// node's name and the count after.
    pub fn step(&mut self, input: Message<UniqueIdPayload>) -> (reply: Option<
        Message<UniqueIdPayload>,
    >)
        requires
            old(self).count() < usize::MAX,
        ensures
            final(self).name() == old(self).name(),
            final(self).count() == old(self).count() + 1,
            reply.deep_view() == match input@.payload {
                UniqueIdRecord::Generate => Some(
                    Envelope {
                        id: Some(old(self).count() as usize),
                        ..answer_to(
                            origin_of(input@),
                            UniqueIdRecord::GenerateOk {
                                id: unique_id(old(self).name(), final(self).count()),
                            },
                        )
                    },
                ),
                UniqueIdRecord::GenerateOk { .. } => None,
            },
    {
        let (origin, payload) = input.open_reply();
        let number = self.id;
        self.id = number + 1;
        match payload {
            UniqueIdPayload::Generate => {
                let mut id = join(self.node.as_str(), "-");
                let count = decimal_string(self.id);
                id.append(count.as_str());
                let mut reply = origin.carrying(UniqueIdPayload::GenerateOk { id });
                reply.body.id = Some(number);
                Some(reply)
            },
            UniqueIdPayload::GenerateOk { .. } => None,
        }
    }
}

} // verus!
