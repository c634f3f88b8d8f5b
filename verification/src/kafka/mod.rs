//! The commit log: topics that are appended to at one node each, read from
//! any offset, and whose consumers record how far they have come.

pub mod cache;
pub mod keys;
pub mod laws;
pub mod model;
pub mod node;
pub mod payload;
