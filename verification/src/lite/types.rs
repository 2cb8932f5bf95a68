//! What the commit verification reads of headers, validators, commits and
//! votes, and how it fails.

use crate::light_client::types::{Address, Digest};
use vstd::prelude::*;

verus! {

/// Height of a block.
pub type Height = u64;

/// A point in time or a span of time, in whatever unit the caller counts.
pub type Time = u64;

/// What of a header the verification reads.
pub struct HeaderFacts {
    pub height: Height,
    pub bft_time: Time,
    pub validators_hash: Digest,
    pub next_validators_hash: Digest,
    pub hash: Digest,
}

/// A block header.
pub trait Header {
    /// What the header holds.
    spec fn facts(&self) -> HeaderFacts;

    fn height(&self) -> (height: Height)
        ensures
            height == self.facts().height,
    ;

    fn bft_time(&self) -> (time: Time)
        ensures
            time == self.facts().bft_time,
    ;

    fn validators_hash(&self) -> (hash: Digest)
        ensures
            hash == self.facts().validators_hash,
    ;

    fn next_validators_hash(&self) -> (hash: Digest)
        ensures
            hash == self.facts().next_validators_hash,
    ;

    fn hash(&self) -> (hash: Digest)
        ensures
            hash == self.facts().hash,
    ;
}

/// A validator: it has voting power and verifies signatures made with its
/// key.
pub trait Validator {
    /// The validator's voting power.
    spec fn voting_power(&self) -> u64;

    /// The signatures that verify under the validator's key.
    spec fn accepts(&self, sign_bytes: Seq<u8>, signature: Seq<u8>) -> bool;

    fn power(&self) -> (power: u64)
        ensures
            power == self.voting_power(),
    ;

    fn verify_signature(&self, sign_bytes: &[u8], signature: &[u8]) -> (ok: bool)
        ensures
            ok == self.accepts(sign_bytes@, signature@),
    ;
}

/// A set of validators, in the order in which a commit lists their votes.
pub trait Validators {
    type Validator: Validator;

    /// The hash of the set.
    spec fn digest(&self) -> Digest;

    /// The voting power of the whole set.
    spec fn whole_power(&self) -> u64;

    /// The validators, in order.
    spec fn members(&self) -> Seq<Self::Validator>;

    fn hash(&self) -> (hash: Digest)
        ensures
            hash == self.digest(),
    ;

    fn total_power(&self) -> (power: u64)
        ensures
            power == self.whole_power(),
    ;

    fn into_vec(&self) -> (validators: Vec<Self::Validator>)
        ensures
            validators@ == self.members(),
    ;
}

/// A set of validators in which a validator can be found by its address.
pub trait ValidatorsLookup: Validators {
    /// The validator with the address `val_id`, if the set has one.
    spec fn member(&self, val_id: Address) -> Option<Self::Validator>;

    fn validator(&self, val_id: Address) -> (found: Option<Self::Validator>)
        ensures
            found == self.member(val_id),
    ;
}

/// A vote of one validator.
pub trait Vote {
    /// The address of the validator that cast the vote.
    spec fn voter(&self) -> Address;

    /// The bytes that the validator signed.
    spec fn signed_bytes(&self) -> Seq<u8>;

    /// The validator's signature.
    spec fn signature_bytes(&self) -> Seq<u8>;

    fn validator_id(&self) -> (val_id: Address)
        ensures
            val_id == self.voter(),
    ;

    fn sign_bytes(&self) -> (bytes: &[u8])
        ensures
            bytes@ == self.signed_bytes(),
    ;

    fn signature(&self) -> (bytes: &[u8])
        ensures
            bytes@ == self.signature_bytes(),
    ;
}

/// The votes for a block: one place per validator, empty where the
/// validator did not vote for the block.
pub trait Commit {
    type Vote: Vote;

    /// The hash of the header that the commit is for.
    spec fn committed_hash(&self) -> Digest;

    /// The votes, in the validators' order.
    spec fn votes(&self) -> Seq<Option<Self::Vote>>;

    fn header_hash(&self) -> (hash: Digest)
        ensures
            hash == self.committed_hash(),
    ;

    fn into_vec(&self) -> (votes: Vec<Option<Self::Vote>>)
        ensures
            votes@ == self.votes(),
    ;
}

/// Why a commit was not accepted.
#[derive(Clone, Copy, Debug, PartialEq, Eq, Structural)]
pub enum Error {
    Expired,
    InvalidValidators,
    InvalidNextValidators,
    InvalidCommitValue,
    InvalidCommitLength,
    InvalidSignature,
    InsufficientVotingPower,
}

} // verus!
