//! The endpoints of the JSON-RPC interface.

pub mod abci_info;
pub mod block_results;
