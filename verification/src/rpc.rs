//! Requests and responses of the JSON-RPC interface of a node.

pub mod encoding;
pub mod endpoint;
pub mod id;
pub mod probe;
