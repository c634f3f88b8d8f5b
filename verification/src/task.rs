//! Work that spans several exchanges with other processes.
//!
//! A node cannot wait. Where answering a client takes requests to a storage
//! service or to another node, the node hands its driver a [`Step`]: a request
//! to make together with a task that remembers how far the work has come. The
//! driver makes the request, waits, and resumes the task with the [`Reply`].

use crate::error::{Failure, NodeError};
use crate::protocol::{Envelope, Message};
use crate::service::{cas_record, read_record, StoragePayload, StorageRecord, Stored};
use vstd::prelude::*;

verus! {

/// What came back for a request.
#[derive(Debug)]
pub enum Reply<P> {
    /// The reply of a storage service.
    Storage(StoragePayload),
    /// The reply of another node.
    Peer(P),
    /// The wait ended without a reply.
    Lost,
}

/// The mathematical content of a [`Reply`].
pub ghost enum ReplyView<V> {
    Storage(StorageRecord),
    Peer(V),
    Lost,
}

impl<P: View> View for Reply<P> {
    type V = ReplyView<P::V>;

    open spec fn view(&self) -> ReplyView<P::V> {
        match *self {
            Reply::Storage(record) => ReplyView::Storage(record@),
            Reply::Peer(payload) => ReplyView::Peer(payload@),
            Reply::Lost => ReplyView::Lost,
        }
    }
}

/// What a node is to do next for one piece of work.
#[derive(Debug)]
pub enum Step<T, P> {
    /// Send `request` to a storage service, wait for the reply and resume
    /// `task` with it.
    AskStore { task: T, request: Message<StoragePayload> },
    /// Send `forward` to another node, wait for the reply and resume `task`
    /// with it.
    AskPeer { task: T, forward: Message<P> },
    /// The work is done: send `message`.
    Reply { message: Message<P> },
    /// There is nothing to do.
    Idle,
    /// The work cannot be completed. Nothing is sent.
    Failed { error: NodeError },
}

/// The mathematical content of a [`Step`].
pub ghost enum StepView<TV, PV> {
    AskStore { task: TV, request: Envelope<StorageRecord> },
    AskPeer { task: TV, forward: Envelope<PV> },
    Reply { message: Envelope<PV> },
    Idle,
    Failed { error: Failure },
}

impl<T: View, P: View> View for Step<T, P> {
    type V = StepView<T::V, P::V>;

    open spec fn view(&self) -> StepView<T::V, P::V> {
        match *self {
            Step::AskStore { task, request } => StepView::AskStore {
                task: task@,
                request: request@,
            },
            Step::AskPeer { task, forward } => StepView::AskPeer { task: task@, forward: forward@ },
            Step::Reply { message } => StepView::Reply { message: message@ },
            Step::Idle => StepView::Idle,
            Step::Failed { error } => StepView::Failed { error: error@ },
        }
    }
}

/// A reply as far as the flow of a task depends on it.
#[derive(Clone, Copy, Debug, PartialEq, Eq)]
pub enum Answer {
    /// A read found this number.
    Value(usize),
    /// The service answered with an error record: a read found no value, a
    /// swap or a write was not applied.
    Refused,
    /// A compare-and-swap was applied.
    Swapped,
    /// A write was applied.
    Written,
    /// Any other reply.
    Other,
    /// No reply.
    Lost,
}

/// How a reply counts for the flow of a task.
pub open spec fn answer_of<V>(reply: ReplyView<V>) -> Answer {
    match reply {
        ReplyView::Storage(StorageRecord::ReadOk { value: Stored::Uint(n) }) => Answer::Value(n),
        ReplyView::Storage(StorageRecord::Error { .. }) => Answer::Refused,
        ReplyView::Storage(StorageRecord::CasOk) => Answer::Swapped,
        ReplyView::Storage(StorageRecord::WriteOk) => Answer::Written,
        ReplyView::Lost => Answer::Lost,
        _ => Answer::Other,
    }
}

/// The failure that a task reports when `reply` stops it.
pub open spec fn failure_of<V>(reply: ReplyView<V>) -> Failure {
    match reply {
        ReplyView::Storage(StorageRecord::Error { code, text }) => Failure::StorageError {
            code,
            text,
        },
        ReplyView::Lost => Failure::NoReply,
        _ => Failure::UnexpectedReply,
    }
}

impl<P: View> Reply<P> {
    /// How this reply counts for the flow of a task.
    pub fn answer(&self) -> (answer: Answer)
        ensures
            answer == answer_of(self@),
    {
        match self {
            Reply::Storage(StoragePayload::ReadOk { value }) => match value.as_uint() {
                Some(n) => Answer::Value(n),
                None => Answer::Other,
            },
            Reply::Storage(StoragePayload::Error { .. }) => Answer::Refused,
            Reply::Storage(StoragePayload::CasOk) => Answer::Swapped,
            Reply::Storage(StoragePayload::WriteOk) => Answer::Written,
            Reply::Lost => Answer::Lost,
            _ => Answer::Other,
        }
    }

    /// The failure that a task reports when this reply stops it.
    pub fn into_error(self) -> (error: NodeError)
        ensures
            error@ == failure_of(self@),
    {
        match self {
            Reply::Storage(StoragePayload::Error { code, text }) => NodeError::StorageError {
                code,
                text,
            },
            Reply::Lost => NodeError::NoReply,
            _ => NodeError::UnexpectedReply,
        }
    }
}

/// What a task asks of the one key that it works on.
#[derive(Clone, Copy, Debug, PartialEq, Eq)]
pub enum Want {
    /// The value under the key.
    Read,
    /// That `from` be replaced by `to`, and the key created where it is
    /// missing.
    Cas { from: usize, to: usize },
}

/// The record that asks `want` of `key`.
pub open spec fn record_of(want: Want, key: Seq<char>) -> StorageRecord {
    match want {
        Want::Read => read_record(key),
        Want::Cas { from, to } => cas_record(key, Stored::Uint(from), Stored::Uint(to)),
    }
}

/// What a storage service does with `want` where the key holds `cell`, as
/// far as a node can tell: the key's new content and the answer.
///
/// This is the behaviour that the node logic relies on. A read answers with
/// the value, or refuses where the key is missing. A swap is applied where the
/// key holds `from` or is missing, and refused otherwise.
pub open spec fn served(cell: Option<usize>, want: Want) -> (Option<usize>, Answer) {
    match want {
        Want::Read => match cell {
            Some(value) => (cell, Answer::Value(value)),
            None => (cell, Answer::Refused),
        },
        Want::Cas { from, to } => match cell {
            Some(value) => if value == from {
                (Some(to), Answer::Swapped)
            } else {
                (cell, Answer::Refused)
            },
            None => (Some(to), Answer::Swapped),
        },
    }
}

/// The number that a key stands for: a missing key stands for zero.
pub open spec fn held(cell: Option<usize>) -> int {
    match cell {
        Some(value) => value as int,
        None => 0,
    }
}

/// How far a read-or-create has come: the value was asked for, or it was
/// missing and its creation was asked for.
#[derive(Clone, Copy, Debug, PartialEq, Eq)]
pub enum FetchPhase {
    Reading,
    Creating,
}

/// What a reply means to a read-or-create.
#[derive(Clone, Copy, Debug, PartialEq, Eq)]
pub enum Fetched {
    /// The value to go on with.
    Have(usize),
    /// The key is missing: ask for its creation with the default, zero.
    Create,
    /// The reply stops the task.
    Fail,
}

/// Read-or-create: a value that is read is taken; a key that is missing is
/// created with zero; once the creation was attempted the task goes on with
/// zero, whichever of several creators won.
pub open spec fn fetch_next(phase: FetchPhase, answer: Answer) -> Fetched {
    match phase {
        FetchPhase::Reading => match answer {
            Answer::Value(n) => Fetched::Have(n),
            Answer::Refused => Fetched::Create,
            _ => Fetched::Fail,
        },
        FetchPhase::Creating => match answer {
            Answer::Lost => Fetched::Fail,
            _ => Fetched::Have(0),
        },
    }
}

/// Executable form of [`fetch_next`].
pub fn fetch(phase: FetchPhase, answer: Answer) -> (fetched: Fetched)
    ensures
        fetched == fetch_next(phase, answer),
{
    match phase {
        FetchPhase::Reading => match answer {
            Answer::Value(n) => Fetched::Have(n),
            Answer::Refused => Fetched::Create,
            _ => Fetched::Fail,
        },
        FetchPhase::Creating => match answer {
            Answer::Lost => Fetched::Fail,
            _ => Fetched::Have(0),
        },
    }
}

} // verus!
