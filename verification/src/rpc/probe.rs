//! Planned interactions with a node, as a probe of its RPC interface makes
//! them.

pub mod kvstore;
pub mod plan;
