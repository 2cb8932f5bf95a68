//! The client side of the ABCI protocol, as far as it decides anything.

pub mod client;
