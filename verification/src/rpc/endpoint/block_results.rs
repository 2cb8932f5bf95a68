//! `/block_results` endpoint JSONRPC wrapper

use crate::light_client::types::{Height, PublicKey};
use vstd::prelude::*;

verus! {

/// A JSON-RPC method.
#[derive(Clone, Copy, Debug, PartialEq, Eq, Structural)]
pub enum Method {
    AbciInfo,
    BlockResults,
}

/// Get ABCI results at a given height.
#[derive(Clone, Copy, Debug, Default, PartialEq, Eq)]
pub struct Request {
    /// Height of the block to request.
    ///
    /// If no height is provided, it will fetch results for the latest block.
    height: Option<Height>,
}

impl Request {
    /// The height that results are requested for; none for the latest
    /// block.
    pub closed spec fn requested(self) -> Option<Height> {
        self.height
    }

    /// Create a new request for information about a particular block
    pub fn new(height: Height) -> (request: Self)
        ensures
            request.requested() == Some(height),
    {
        Self { height: Some(height) }
    }

    /// The height that results are requested for; none for the latest
    /// block.
    pub fn height(&self) -> (height: Option<Height>)
        ensures
            height == self.requested(),
    {
        self.height
    }

    /// The method that the request calls.
    pub fn method(&self) -> (method: Method)
        ensures
            method == Method::BlockResults,
    {
        Method::BlockResults
    }
}

/// A key with a value, as events carry them.
#[derive(Clone, Debug, PartialEq, Eq)]
pub struct Tag {
    pub key: String,
    pub value: String,
}

/// An event that the application emitted.
#[derive(Clone, Debug, PartialEq, Eq)]
pub struct Event {
    pub type_str: String,
    pub attributes: Vec<Tag>,
}

/// The result of delivering one transaction to the application.
#[derive(Clone, Debug, PartialEq, Eq)]
pub struct DeliverTx {
    pub code: u32,
    pub data: Vec<u8>,
    pub log: String,
    pub gas_wanted: u64,
    pub gas_used: u64,
    pub events: Vec<Event>,
}

/// A change of a validator's voting power.
#[derive(Clone, Copy, Debug, PartialEq, Eq)]
pub struct ValidatorUpdate {
    pub pub_key: PublicKey,
    pub power: u64,
}

/// Changes of the consensus parameters.
#[derive(Clone, Copy, Debug, PartialEq, Eq)]
pub struct ConsensusParams {
    pub block_max_bytes: u64,
    pub block_max_gas: i64,
    pub evidence_max_age_num_blocks: u64,
}

/// ABCI result response.
#[derive(Clone, Debug, PartialEq, Eq)]
pub struct Response {
    /// Block height
    pub height: Height,
    /// Txs results (might be explicit null)
    pub txs_results: Option<Vec<DeliverTx>>,
    /// Begin block events (might be explicit null)
    pub begin_block_events: Option<Vec<Event>>,
    /// End block events (might be explicit null)
    pub end_block_events: Option<Vec<Event>>,
    /// Validator updates (might be explicit null)
    pub validator_updates: Vec<ValidatorUpdate>,
    /// New consensus params (might be explicit null)
    pub consensus_param_updates: Option<ConsensusParams>,
}

} // verus!
