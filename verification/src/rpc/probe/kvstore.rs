//! Common interactions that can be used by plans interacting with the
//! `kvstore` application running on a Tendermint node.

use crate::rpc::encoding::{base64_encode, base64_encoded};
use crate::rpc::probe::plan::{PlannedInteraction, PlannedSubscription, Request, RequestView};
use crate::text::{ascii_chars, decimal, decimal_text, hex, hex_text, text_of};
use vstd::prelude::*;
use vstd::string::StringSliceAdditionalSpecFns;

verus! {

/// The planned request of `method` with the parameters `params`.
pub open spec fn planned(
    interaction: PlannedInteraction,
    method: Seq<char>,
    params: Seq<(Seq<char>, Seq<char>)>,
) -> bool {
    interaction matches PlannedInteraction::Request(request) && request@ == (RequestView {
        method,
        params,
    })
}

/// The transaction that sets `key` to `value` in the store: the Base64
/// text of `key=value`.
pub open spec fn kvpair_text(key: Seq<u8>, value: Seq<u8>) -> Seq<char> {
    ascii_chars(base64_encoded(key + seq![61u8] + value))
}

/// Writes the key in hexadecimal, as `abci_query` sends it.
pub fn hex_string(key: &str) -> (text: String)
    ensures
        text@ == hex_text(key.spec_bytes()),
{
    hex(key.as_bytes())
}

/// Writes the transaction that sets `key` to `value` in the store.
pub fn encode_kvpair(key: &str, value: &str) -> (text: String)
    requires
        (key.spec_bytes().len() + value.spec_bytes().len() + 1) * 4 <= usize::MAX,
    ensures
        text@ == kvpair_text(key.spec_bytes(), value.spec_bytes()),
{
    let mut pair: Vec<u8> = Vec::new();
    pair.extend_from_slice(key.as_bytes());
    pair.push(61u8);
    pair.extend_from_slice(value.as_bytes());
    assert(pair@ =~= key.spec_bytes() + seq![61u8] + value.spec_bytes());
    let encoded = base64_encode(pair.as_slice());
    match text_of(encoded) {
        Some(text) => text,
        None => {
            assert(false);
            String::from_str("")
        },
    }
}

/// Asks for the information that the application gives of itself.
pub fn abci_info() -> (interaction: PlannedInteraction)
    ensures
        planned(interaction, "abci_info"@, Seq::empty()),
{
    PlannedInteraction::Request(Request::new("abci_info"))
}

/// Asks the application for the value that it keeps under `key`.
pub fn abci_query(key: &str) -> (interaction: PlannedInteraction)
    ensures
        planned(interaction, "abci_query"@, seq![("data"@, hex_text(key.spec_bytes()))]),
{
    let request = Request::new("abci_query").with("data", hex_string(key));
    assert(request@.params =~= seq![("data"@, hex_text(key.spec_bytes()))]);
    PlannedInteraction::Request(request)
}

/// Asks for the block at `height`.
pub fn block(height: u64) -> (interaction: PlannedInteraction)
    ensures
        planned(interaction, "block"@, seq![("height"@, decimal_text(height as nat))]),
{
    let request = Request::new("block").with("height", decimal(height));
    assert(request@.params =~= seq![("height"@, decimal_text(height as nat))]);
    PlannedInteraction::Request(request)
}

/// Asks for the results of the block at `height`.
pub fn block_results(height: u64) -> (interaction: PlannedInteraction)
    ensures
        planned(interaction, "block_results"@, seq![("height"@, decimal_text(height as nat))]),
{
    let request = Request::new("block_results").with("height", decimal(height));
    assert(request@.params =~= seq![("height"@, decimal_text(height as nat))]);
    PlannedInteraction::Request(request)
}

/// Asks for the headers of the blocks from `min_height` to `max_height`.
pub fn blockchain(min_height: u64, max_height: u64) -> (interaction: PlannedInteraction)
    ensures
        planned(
            interaction,
            "blockchain"@,
            seq![
                ("minHeight"@, decimal_text(min_height as nat)),
                ("maxHeight"@, decimal_text(max_height as nat)),
            ],
        ),
{
    let request = Request::new("blockchain").with("minHeight", decimal(min_height)).with(
        "maxHeight",
        decimal(max_height),
    );
    assert(request@.params =~= seq![
        ("minHeight"@, decimal_text(min_height as nat)),
        ("maxHeight"@, decimal_text(max_height as nat)),
    ]);
    PlannedInteraction::Request(request)
}

/// Broadcasts, in the way that `method` names, the transaction that sets
/// `key` to `value`.
pub fn broadcast_tx(method: &str, key: &str, value: &str) -> (interaction: PlannedInteraction)
    requires
        (key.spec_bytes().len() + value.spec_bytes().len() + 1) * 4 <= usize::MAX,
    ensures
        planned(
            interaction,
            "broadcast_tx_"@ + method@,
            seq![("tx"@, kvpair_text(key.spec_bytes(), value.spec_bytes()))],
        ),
{
    let mut name = String::from_str("broadcast_tx_");
    name.append(method);
    let request = Request::new(name.as_str()).with("tx", encode_kvpair(key, value));
    assert(request@.params =~= seq![("tx"@, kvpair_text(key.spec_bytes(), value.spec_bytes()))]);
    PlannedInteraction::Request(request)
}

/// Asks for the commit of the block at `height`.
pub fn commit(height: u64) -> (interaction: PlannedInteraction)
    ensures
        planned(interaction, "commit"@, seq![("height"@, decimal_text(height as nat))]),
{
    let request = Request::new("commit").with("height", decimal(height));
    assert(request@.params =~= seq![("height"@, decimal_text(height as nat))]);
    PlannedInteraction::Request(request)
}

/// Asks for the genesis of the chain.
pub fn genesis() -> (interaction: PlannedInteraction)
    ensures
        planned(interaction, "genesis"@, Seq::empty()),
{
    PlannedInteraction::Request(Request::new("genesis"))
}

/// Asks for the state of the network as the node sees it.
pub fn net_info() -> (interaction: PlannedInteraction)
    ensures
        planned(interaction, "net_info"@, Seq::empty()),
{
    PlannedInteraction::Request(Request::new("net_info"))
}

/// Asks for the status of the node.
pub fn status() -> (interaction: PlannedInteraction)
    ensures
        planned(interaction, "status"@, Seq::empty()),
{
    PlannedInteraction::Request(Request::new("status"))
}

/// A subscription to the events that `query` selects.
pub fn subscribe(query: &str) -> (interaction: PlannedInteraction)
    ensures
        interaction matches PlannedInteraction::Subscription(subscription) && subscription.query@
            == query@,
{
    PlannedInteraction::Subscription(PlannedSubscription::new(query))
}

} // verus!
