//! Node logic for processes that exchange line-delimited envelopes with a
//! network simulator: envelope handling, request/reply correlation, the
//! storage-service client, and the broadcast, counter and commit-log nodes.
//!
//! Everything here is synchronous and free of I/O. A node is driven from
//! outside: the driver reads an envelope, hands it to the node, performs the
//! sends and requests that come back, and hands the replies in again.

pub mod broadcast;
pub mod counter;
pub mod echo;
pub mod error;
pub mod kafka;
pub mod network;
pub mod protocol;
pub mod server;
pub mod service;
pub mod sets;
pub mod task;
pub mod text;
pub mod unique_ids;
