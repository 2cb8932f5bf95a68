//! Canonical hashing of headers and validator sets, as the light client
//! consumes it.

use crate::light_client::types::{Digest, Header, HeaderView, Validator, ValidatorSet};
use vstd::prelude::*;

verus! {

/// Hashes headers and validator sets. The light client does not look inside
/// the hash: it only compares digests.
pub trait Hasher {
    /// The canonical hash of a header.
    spec fn header_digest(&self, header: HeaderView) -> Digest;

    /// The canonical hash of a validator set, taken in the set's order.
    spec fn validator_set_digest(&self, vals: Seq<Validator>) -> Digest;

    /// Computes the canonical hash of `header`.
    fn hash_header(&self, header: &Header) -> (digest: Digest)
        ensures
            digest == self.header_digest(header@),
    ;

    /// Computes the canonical hash of `validator_set`.
    fn hash_validator_set(&self, validator_set: &ValidatorSet) -> (digest: Digest)
        ensures
            digest == self.validator_set_digest(validator_set@),
    ;
}

} // verus!
