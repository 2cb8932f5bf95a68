//! Votes, and the bytes a validator signs when it casts one.

use crate::light_client::types::{Address, BlockId, Height, Signature, Time};
use vstd::bytes::{spec_u32_to_le_bytes, spec_u64_to_le_bytes, u32_to_le_bytes, u64_to_le_bytes};
use vstd::prelude::*;

verus! {

/// The kind of a vote.
#[derive(Clone, Copy, Debug, PartialEq, Eq, Structural)]
pub enum VoteType {
    Prevote,
    Precommit,
}

/// A vote of one validator, in the canonical form that it signed.
#[derive(Clone, Copy, Debug, PartialEq, Eq)]
pub struct Vote {
    pub vote_type: VoteType,
    pub height: Height,
    pub round: u32,
    /// The block voted for; `None` in a vote for nil.
    pub block_id: Option<BlockId>,
    pub timestamp: Option<Time>,
    pub validator_address: Address,
    pub validator_index: u64,
    pub signature: Signature,
}

/// The byte that tags a vote of the given kind.
pub open spec fn type_tag(vote_type: VoteType) -> u8 {
    match vote_type {
        VoteType::Prevote => 1,
        VoteType::Precommit => 2,
    }
}

/// The bytes that are signed for `vote` on the chain `chain_id`: the tag of
/// the vote's kind, its height and round in little-endian order, the hash of
/// the block voted for (nothing for nil), the timestamp in little-endian
/// order (nothing where there is none), and the chain identifier.
pub open spec fn sign_bytes(chain_id: Seq<u8>, vote: Vote) -> Seq<u8> {
    seq![type_tag(vote.vote_type)] + spec_u64_to_le_bytes(vote.height) + spec_u32_to_le_bytes(
        vote.round,
    ) + (match vote.block_id {
        Some(id) => id.hash.bytes@,
        None => Seq::<u8>::empty(),
    }) + (match vote.timestamp {
        Some(time) => spec_u64_to_le_bytes(time.0),
        None => Seq::<u8>::empty(),
    }) + chain_id
}

impl Vote {
    /// The bytes that are signed for this vote on the chain `chain_id`.
    pub fn sign_bytes(&self, chain_id: &Vec<u8>) -> (bytes: Vec<u8>)
        ensures
            bytes@ == sign_bytes(chain_id@, *self),
    {
        let mut bytes: Vec<u8> = Vec::new();
        let tag: u8 = match self.vote_type {
            VoteType::Prevote => 1,
            VoteType::Precommit => 2,
        };
        bytes.push(tag);
        let mut height = u64_to_le_bytes(self.height);
        bytes.append(&mut height);
        let mut round = u32_to_le_bytes(self.round);
        bytes.append(&mut round);
        match &self.block_id {
            Some(id) => {
                bytes.extend_from_slice(id.hash.bytes.as_slice());
            },
            None => {},
        }
        match &self.timestamp {
            Some(time) => {
                let mut stamp = u64_to_le_bytes(time.0);
                bytes.append(&mut stamp);
            },
            None => {},
        }
        bytes.extend_from_slice(chain_id.as_slice());
        assert(bytes@ =~= sign_bytes(chain_id@, *self));
        bytes
    }
}

} // verus!
