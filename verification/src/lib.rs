//! Verification engine, bisection scheduler, light store and supervisor of a
//! light client for a BFT proof-of-stake chain, together with the small
//! request and response types its RPC and ABCI layers exchange.

pub mod abci;
pub mod light_client;
pub mod lite;
pub mod rpc;
pub mod text;
