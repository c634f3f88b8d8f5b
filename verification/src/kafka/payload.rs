//! The records of the commit log's protocol.

use vstd::prelude::*;
use vstd::string::*;

verus! {

/// What clients ask of the commit log, what it answers, and what a node
/// forwards to the leader of a topic.
///
/// Where the wire format has an object keyed by topic, the record holds the
/// pairs of that object in a list; they are worked through in the list's
/// order.
#[derive(Clone, Debug, PartialEq, Eq)]
pub enum KafkaPayload {
    /// Append `msg` to the topic `key`.
    Send { key: String, msg: usize },
    SendOk { offset: usize },
    /// For each topic, read on from the given offset.
    Poll { offsets: Vec<(String, usize)> },
    /// For each topic that had something to read: pairs of offset and entry.
    PollOk { msgs: Vec<(String, Vec<(usize, usize)>)> },
    /// For each topic, record that it was consumed up to the given offset.
    CommitOffsets { offsets: Vec<(String, usize)> },
    CommitOffsetsOk,
    /// Ask how far each of the topics was consumed.
    ListCommittedOffsets { keys: Vec<String> },
    ListCommittedOffsetsOk { offsets: Vec<(String, usize)> },
}

/// The mathematical content of a [`KafkaPayload`].
pub ghost enum KafkaRecord {
    Send { key: Seq<char>, msg: usize },
    SendOk { offset: usize },
    Poll { offsets: Seq<(Seq<char>, usize)> },
    PollOk { msgs: Seq<(Seq<char>, Seq<(usize, usize)>)> },
    CommitOffsets { offsets: Seq<(Seq<char>, usize)> },
    CommitOffsetsOk,
    ListCommittedOffsets { keys: Seq<Seq<char>> },
    ListCommittedOffsetsOk { offsets: Seq<(Seq<char>, usize)> },
}

impl View for KafkaPayload {
    type V = KafkaRecord;

    open spec fn view(&self) -> KafkaRecord {
        match *self {
            KafkaPayload::Send { key, msg } => KafkaRecord::Send { key: key@, msg },
            KafkaPayload::SendOk { offset } => KafkaRecord::SendOk { offset },
            KafkaPayload::Poll { offsets } => KafkaRecord::Poll { offsets: offsets.deep_view() },
            KafkaPayload::PollOk { msgs } => KafkaRecord::PollOk { msgs: msgs.deep_view() },
            KafkaPayload::CommitOffsets { offsets } => KafkaRecord::CommitOffsets {
                offsets: offsets.deep_view(),
            },
            KafkaPayload::CommitOffsetsOk => KafkaRecord::CommitOffsetsOk,
            KafkaPayload::ListCommittedOffsets { keys } => KafkaRecord::ListCommittedOffsets {
                keys: keys.deep_view(),
            },
            KafkaPayload::ListCommittedOffsetsOk { offsets } => {
                KafkaRecord::ListCommittedOffsetsOk { offsets: offsets.deep_view() }
            },
        }
    }
}

} // verus!
