//! The client side of the two key-value services: which requests a node
//! sends them and what their replies mean.
//!
//! Both services speak the same records. One is reached under the name
//! `seq-kv` and promises sequential consistency, the other under `lin-kv` and
//! promises linearizability.

use crate::error::NodeError;
use crate::protocol::{Body, Envelope, Message};
use crate::text::same_text;
use vstd::prelude::*;
use vstd::string::*;

verus! {

/// What a log holds at one offset, and the unit in which offsets and
/// counters are stored.
pub type Entry = usize;

/// A value as the services store it.
#[derive(Clone, Debug, PartialEq, Eq)]
pub enum StorageType {
    Uint(Entry),
    Array(Vec<Entry>),
}

/// The mathematical content of a [`StorageType`].
pub ghost enum Stored {
    Uint(usize),
    Array(Seq<usize>),
}

impl View for StorageType {
    type V = Stored;

    open spec fn view(&self) -> Stored {
        match *self {
            StorageType::Uint(n) => Stored::Uint(n),
            StorageType::Array(items) => Stored::Array(items@),
        }
    }
}

impl StorageType {
    /// The number that this value is, if it is one.
    pub fn as_uint(&self) -> (n: Option<Entry>)
        ensures
            n == match self@ {
                Stored::Uint(n) => Some(n),
                Stored::Array(_) => None,
            },
    {
        match self {
            StorageType::Uint(n) => Some(*n),
            StorageType::Array(_) => None,
        }
    }
}

/// Name under which the linearizable service is reached.
pub const LINEAR_STORE_ADDRESS: &'static str = "lin-kv";

/// Name under which the sequentially consistent service is reached.
pub const SEQUENTIAL_STORE_ADDRESS: &'static str = "seq-kv";

/// Whether `address` names one of the two services.
pub fn is_storage_address(address: &str) -> (yes: bool)
    ensures
        yes == (address@ == LINEAR_STORE_ADDRESS@ || address@ == SEQUENTIAL_STORE_ADDRESS@),
{
    same_text(address, LINEAR_STORE_ADDRESS) || same_text(address, SEQUENTIAL_STORE_ADDRESS)
}

/// The records exchanged with a service.
#[derive(Clone, Debug, PartialEq, Eq)]
pub enum StoragePayload {
    Read { key: String },
    ReadOk { value: StorageType },
    Write { key: String, value: StorageType },
    WriteOk,
    Cas { key: String, from: StorageType, to: StorageType, create_if_not_exists: Option<bool> },
    CasOk,
    Error { code: usize, text: String },
}

/// The mathematical content of a [`StoragePayload`].
pub ghost enum StorageRecord {
    Read { key: Seq<char> },
    ReadOk { value: Stored },
    Write { key: Seq<char>, value: Stored },
    WriteOk,
    Cas { key: Seq<char>, from: Stored, to: Stored, create_if_not_exists: Option<bool> },
    CasOk,
    Error { code: usize, text: Seq<char> },
}

impl View for StoragePayload {
    type V = StorageRecord;

    open spec fn view(&self) -> StorageRecord {
        match *self {
            StoragePayload::Read { key } => StorageRecord::Read { key: key@ },
            StoragePayload::ReadOk { value } => StorageRecord::ReadOk { value: value@ },
            StoragePayload::Write { key, value } => StorageRecord::Write {
                key: key@,
                value: value@,
            },
            StoragePayload::WriteOk => StorageRecord::WriteOk,
            StoragePayload::Cas { key, from, to, create_if_not_exists } => StorageRecord::Cas {
                key: key@,
                from: from@,
                to: to@,
                create_if_not_exists,
            },
            StoragePayload::CasOk => StorageRecord::CasOk,
            StoragePayload::Error { code, text } => StorageRecord::Error { code, text: text@ },
        }
    }
}

/// The envelope that carries `record` from `node` to the service at
/// `address`. It has no id yet and answers nothing.
pub open spec fn request_envelope(
    node: Seq<char>,
    address: Seq<char>,
    record: StorageRecord,
) -> Envelope<StorageRecord> {
    Envelope { src: node, dst: address, id: None, in_reply_to: None, payload: record }
}

/// The record that asks for the value under `key`.
pub open spec fn read_record(key: Seq<char>) -> StorageRecord {
    StorageRecord::Read { key }
}

/// The record that stores `value` under `key`.
pub open spec fn write_record(key: Seq<char>, value: Stored) -> StorageRecord {
    StorageRecord::Write { key, value }
}

/// The record that replaces `from` by `to` under `key`, and creates the key
/// where it is missing.
pub open spec fn cas_record(key: Seq<char>, from: Stored, to: Stored) -> StorageRecord {
    StorageRecord::Cas { key, from, to, create_if_not_exists: Some(true) }
}

fn envelope_for<P>(node_id: String, address: String, payload: P) -> (message: Message<P>)
    ensures
        message.src == node_id,
        message.dst == address,
        message.body.id == None::<usize>,
        message.body.in_reply_to == None::<usize>,
        message.body.payload == payload,
{
    Message { src: node_id, dst: address, body: Body { id: None, in_reply_to: None, payload } }
}

/// A node's handle on the sequentially consistent service.
#[derive(Clone, Debug)]
pub struct SequentialStore {
    node_id: String,
}

impl SequentialStore {
    /// The node on whose behalf requests are made.
    pub closed spec fn owner(&self) -> Seq<char> {
        self.node_id@
    }

    pub fn new(node_id: String) -> (store: Self)
        ensures
            store.owner() == node_id@,
    {
        SequentialStore { node_id }
    }

    pub fn node_id(&self) -> (id: String)
        ensures
            id@ == self.owner(),
    {
        self.node_id.clone()
    }

    pub fn address() -> (address: String)
        ensures
            address@ == SEQUENTIAL_STORE_ADDRESS@,
    {
        String::from_str(SEQUENTIAL_STORE_ADDRESS)
    }

    /// The request for the value under `key`. Its reply is read by
    /// [`read_reply`].
    pub fn read(&self, key: String) -> (request: Message<StoragePayload>)
        ensures
            request@ == request_envelope(
                self.owner(),
                SEQUENTIAL_STORE_ADDRESS@,
                read_record(key@),
            ),
    {
        Self::construct_message(self.node_id(), StoragePayload::Read { key })
    }

    /// The message that stores `value` under `key`. No reply is waited for.
    pub fn write(&self, key: String, value: StorageType) -> (request: Message<StoragePayload>)
        ensures
            request@ == request_envelope(
                self.owner(),
                SEQUENTIAL_STORE_ADDRESS@,
                write_record(key@, value@),
            ),
    {
        Self::construct_message(self.node_id(), StoragePayload::Write { key, value })
    }

    /// The request that replaces `from` by `to` under `key`. Its reply is
    /// read by [`cas_reply`].
    pub fn compare_and_store(&self, key: String, from: StorageType, to: StorageType) -> (request:
        Message<StoragePayload>)
        ensures
            request@ == request_envelope(
                self.owner(),
                SEQUENTIAL_STORE_ADDRESS@,
                cas_record(key@, from@, to@),
            ),
    {
        Self::construct_message(
            self.node_id(),
            StoragePayload::Cas { key, from, to, create_if_not_exists: Some(true) },
        )
    }

    /// An envelope from `node_id` to this service around `payload`.
    pub fn construct_message<P>(node_id: String, payload: P) -> (message: Message<P>)
        ensures
            message.src == node_id,
            message.dst@ == SEQUENTIAL_STORE_ADDRESS@,
            message.body.id == None::<usize>,
            message.body.in_reply_to == None::<usize>,
            message.body.payload == payload,
    {
        envelope_for(node_id, Self::address(), payload)
    }
}

/// A node's handle on the linearizable service.
#[derive(Clone, Debug)]
pub struct LinearStore {
    node_id: String,
}

impl LinearStore {
    /// The node on whose behalf requests are made.
    pub closed spec fn owner(&self) -> Seq<char> {
        self.node_id@
    }

    pub fn new(node_id: String) -> (store: Self)
        ensures
            store.owner() == node_id@,
    {
        LinearStore { node_id }
    }

    pub fn node_id(&self) -> (id: String)
        ensures
            id@ == self.owner(),
    {
        self.node_id.clone()
    }

    pub fn address() -> (address: String)
        ensures
            address@ == LINEAR_STORE_ADDRESS@,
    {
        String::from_str(LINEAR_STORE_ADDRESS)
    }

    /// The request for the value under `key`. Its reply is read by
    /// [`read_reply`].
    pub fn read(&self, key: String) -> (request: Message<StoragePayload>)
        ensures
            request@ == request_envelope(self.owner(), LINEAR_STORE_ADDRESS@, read_record(key@)),
    {
        Self::construct_message(self.node_id(), StoragePayload::Read { key })
    }

    /// The message that stores `value` under `key`.
    pub fn write(&self, key: String, value: StorageType) -> (request: Message<StoragePayload>)
        ensures
            request@ == request_envelope(
                self.owner(),
                LINEAR_STORE_ADDRESS@,
                write_record(key@, value@),
            ),
    {
        Self::construct_message(self.node_id(), StoragePayload::Write { key, value })
    }

    /// The request that replaces `from` by `to` under `key`. Its reply is
    /// read by [`cas_reply`].
    pub fn compare_and_store(&self, key: String, from: StorageType, to: StorageType) -> (request:
        Message<StoragePayload>)
        ensures
            request@ == request_envelope(
                self.owner(),
                LINEAR_STORE_ADDRESS@,
                cas_record(key@, from@, to@),
            ),
    {
        Self::construct_message(
            self.node_id(),
            StoragePayload::Cas { key, from, to, create_if_not_exists: Some(true) },
        )
    }

    /// An envelope from `node_id` to this service around `payload`.
    pub fn construct_message<P>(node_id: String, payload: P) -> (message: Message<P>)
        ensures
            message.src == node_id,
            message.dst@ == LINEAR_STORE_ADDRESS@,
            message.body.id == None::<usize>,
            message.body.in_reply_to == None::<usize>,
            message.body.payload == payload,
    {
        envelope_for(node_id, Self::address(), payload)
    }
}

/// What the reply to a read means: the stored value, the service's error, or
/// a reply that no read can have.
pub fn read_reply(reply: StoragePayload) -> (result: Result<StorageType, NodeError>)
    ensures
        match reply {
            StoragePayload::ReadOk { value } => result == Ok::<StorageType, NodeError>(value),
            StoragePayload::Error { code, text } => result == Err::<StorageType, NodeError>(
                NodeError::StorageError { code, text },
            ),
            _ => result == Err::<StorageType, NodeError>(NodeError::UnexpectedReply),
        },
{
    match reply {
        StoragePayload::ReadOk { value } => Ok(value),
        StoragePayload::Error { code, text } => Err(NodeError::StorageError { code, text }),
        _ => Err(NodeError::UnexpectedReply),
    }
}

/// What the reply to a compare-and-swap means: only `CasOk` says that the
/// swap was applied; every other reply is a refusal.
pub fn cas_reply(reply: &StoragePayload) -> (result: Result<(), NodeError>)
    ensures
        reply@ is CasOk ==> result == Ok::<(), NodeError>(()),
        !(reply@ is CasOk) ==> result == Err::<(), NodeError>(NodeError::CasFailure),
{
    match reply {
        StoragePayload::CasOk => Ok(()),
        _ => Err(NodeError::CasFailure),
    }
}

} // verus!
