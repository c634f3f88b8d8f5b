//! Why a node gives up on a piece of work.

use vstd::prelude::*;
use vstd::string::*;

verus! {

/// The failures that node logic reports to its driver.
#[derive(Clone, Debug, PartialEq, Eq)]
pub enum NodeError {
    /// A compare-and-swap was not applied: the stored value was not the
    /// expected one. Callers that loop take this as the signal to retry.
    CasFailure,
    /// The storage service answered with an error record.
    StorageError { code: usize, text: String },
    /// The leader of a topic did not confirm a forwarded append.
    ForwardFailure,
    /// The wait for a reply ended without a reply.
    NoReply,
    /// A reply arrived that the request cannot have.
    UnexpectedReply,
    /// A stored number cannot be advanced without leaving the machine's range.
    Overflow,
}

/// The mathematical content of a [`NodeError`].
pub ghost enum Failure {
    CasFailure,
    StorageError { code: usize, text: Seq<char> },
    ForwardFailure,
    NoReply,
    UnexpectedReply,
    Overflow,
}

impl View for NodeError {
    type V = Failure;

    open spec fn view(&self) -> Failure {
        match *self {
            NodeError::CasFailure => Failure::CasFailure,
            NodeError::StorageError { code, text } => Failure::StorageError { code, text: text@ },
            NodeError::ForwardFailure => Failure::ForwardFailure,
            NodeError::NoReply => Failure::NoReply,
            NodeError::UnexpectedReply => Failure::UnexpectedReply,
            NodeError::Overflow => Failure::Overflow,
        }
    }
}

impl NodeError {
    /// A short description for logs.
    pub fn describe(&self) -> (text: String)
        ensures
            text@ == match *self {
                NodeError::CasFailure => "compare-and-swap refused"@,
                NodeError::StorageError { .. } => "storage error"@,
                NodeError::ForwardFailure => "forwarding to the topic leader failed"@,
                NodeError::NoReply => "no reply"@,
                NodeError::UnexpectedReply => "unexpected reply"@,
                NodeError::Overflow => "number out of range"@,
            },
    {
        match self {
            NodeError::CasFailure => String::from_str("compare-and-swap refused"),
            NodeError::StorageError { .. } => String::from_str("storage error"),
            NodeError::ForwardFailure => String::from_str("forwarding to the topic leader failed"),
            NodeError::NoReply => String::from_str("no reply"),
            NodeError::UnexpectedReply => String::from_str("unexpected reply"),
            NodeError::Overflow => String::from_str("number out of range"),
        }
    }
}

} // verus!
