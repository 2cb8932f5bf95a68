//! `/abci_info` endpoint JSONRPC wrapper

use crate::light_client::types::{Digest, Height};
use crate::rpc::encoding::{
    base64_decode, base64_decoded, base64_encode, base64_encoded, has_padding_in_place,
    padding_in_place,
};
use vstd::prelude::*;

verus! {

/// Request ABCI information from a node
#[derive(Clone, Copy, Debug, Default, PartialEq, Eq)]
pub struct Request;

impl Request {
    /// The path of the endpoint.
    pub fn path(&self) -> (path: &'static str)
        ensures
            path@ == "/abci_info"@,
    {
        "/abci_info"
    }
}

/// ABCI information response
#[derive(Clone, Debug, PartialEq, Eq)]
pub struct Response {
    /// ABCI info
    pub response: AbciInfoResponse,
}

/// ABCI information
#[derive(Clone, Debug, PartialEq, Eq)]
pub struct AbciInfoResponse {
    /// Name of the application
    pub data: String,
    /// Version
    pub version: Option<String>,
    /// Last block height
    pub last_block_height: Height,
    /// Last app hash for the block; none where the application has not
    /// committed yet
    pub last_block_app_hash: Option<Digest>,
}

/// Why a text is not an app hash.
#[derive(Clone, Copy, Debug, PartialEq, Eq, Structural)]
pub enum AppHashError {
    /// The text is not Base64.
    InvalidEncoding,
    /// The text stands for more or fewer than 32 bytes.
    InvalidLength,
}

/// The app hash that decoded bytes make: the digest of exactly these bytes,
/// where there are 32 of them.
pub open spec fn app_hash_of(bytes: Seq<u8>) -> Result<Digest, AppHashError> {
    if bytes.len() == 32 {
        Ok(Digest { bytes: digest_bytes(bytes) })
    } else {
        Err(AppHashError::InvalidLength)
    }
}

/// The array of the 32 bytes of `bytes`.
pub open spec fn digest_bytes(bytes: Seq<u8>) -> [u8; 32]
    recommends
        bytes.len() == 32,
{
    choose|array: [u8; 32]| array@ == bytes
}

/// The app hash that a text stands for: the text must be Base64 with its
/// padding in place, and stand for 32 bytes.
pub open spec fn parsed_app_hash(text: Seq<u8>) -> Result<Digest, AppHashError> {
    if !padding_in_place(text) {
        Err(AppHashError::InvalidEncoding)
    } else {
        match base64_decoded(text) {
            None => Err(AppHashError::InvalidEncoding),
            Some(bytes) => app_hash_of(bytes),
        }
    }
}

/// Makes an app hash of decoded bytes.
pub fn app_hash_from_bytes(bytes: &[u8]) -> (hash: Result<Digest, AppHashError>)
    ensures
        hash == app_hash_of(bytes@),
        hash matches Ok(digest) ==> digest.bytes@ == bytes@,
{
    if bytes.len() != 32 {
        return Err(AppHashError::InvalidLength);
    }
    let mut array: [u8; 32] = [0u8; 32];
    let mut i: usize = 0;
    while i < 32
        invariant
            i <= 32,
            bytes@.len() == 32,
            forall|k: int| 0 <= k < i ==> array@[k] == bytes@[k],
        decreases 32 - i,
    {
        array[i] = bytes[i];
        i += 1;
    }
    proof {
        assert(array@ =~= bytes@);
        let chosen = digest_bytes(bytes@);
        assert(chosen@ == bytes@);
        assert(chosen =~= array);
    }
    Ok(Digest { bytes: array })
}

/// Parse Base64-encoded app hash
pub fn parse_app_hash(text: &[u8]) -> (hash: Result<Digest, AppHashError>)
    ensures
        hash == parsed_app_hash(text@),
{
    if !has_padding_in_place(text) {
        return Err(AppHashError::InvalidEncoding);
    }
    match base64_decode(text) {
        None => Err(AppHashError::InvalidEncoding),
        Some(bytes) => app_hash_from_bytes(bytes.as_slice()),
    }
}

/// The Base64 text of an app hash; the empty text where there is none.
pub open spec fn app_hash_text(hash: Option<Digest>) -> Seq<u8> {
    match hash {
        Some(digest) => base64_encoded(digest.bytes@),
        None => Seq::empty(),
    }
}

/// Serialize Base64-encoded app hash
pub fn serialize_app_hash(hash: &Option<Digest>) -> (text: Vec<u8>)
    ensures
        text@ == app_hash_text(*hash),
        forall|i: int| 0 <= i < text@.len() ==> #[trigger] text@[i] < 128,
{
    match hash {
        Some(digest) => base64_encode(digest.bytes.as_slice()),
        None => Vec::new(),
    }
}

} // verus!
