//! Structural validation of a commit against the validator set it is for.

use crate::light_client::errors::{
    check_view, CommitFault, VerificationError, VerificationErrorView,
};
use crate::light_client::types::{
    lookup, CommitSig, SignedHeader, SignedHeaderView, Validator, ValidatorSet,
};
use crate::light_client::voting_power::{repeats_signer, signed_before};
use vstd::prelude::*;

verus! {

/// A commit has one entry per validator.
pub open spec fn check_commit_length(signed_header: SignedHeaderView, vals: Seq<Validator>)
    -> Result<(), VerificationErrorView> {
    if signed_header.commit.signatures.len() == vals.len() {
        Ok(())
    } else {
        Err(
            VerificationErrorView::InvalidCommit(
                CommitFault::LengthMismatch {
                    signatures: signed_header.commit.signatures.len() as usize,
                    validators: vals.len() as usize,
                },
            ),
        )
    }
}

/// Entry `k` is signed by an address that is not in `vals`, or that already
/// signed an earlier entry.
pub open spec fn stray_or_repeated(entries: Seq<CommitSig>, vals: Seq<Validator>, k: int) -> bool {
    match entries[k].signer() {
        Some(address) => lookup(vals, address) is None || repeats_signer(entries, k),
        None => false,
    }
}

/// Entry `k` is the first that is signed by a stranger or by a signer of an
/// earlier entry.
pub open spec fn first_stray_or_repeated(entries: Seq<CommitSig>, vals: Seq<Validator>, k: int)
    -> bool {
    &&& 0 <= k < entries.len()
    &&& stray_or_repeated(entries, vals, k)
    &&& forall|j: int| 0 <= j < k ==> !stray_or_repeated(entries, vals, j)
}

/// Every signer of the commit is a validator of `vals`, and none signs
/// twice. The first entry that breaks this is reported; a stranger is
/// reported as such even where it also signed before.
pub open spec fn check_commit_signers(signed_header: SignedHeaderView, vals: Seq<Validator>)
    -> Result<(), VerificationErrorView> {
    let entries = signed_header.commit.signatures;
    if exists|k: int| first_stray_or_repeated(entries, vals, k) {
        let k = choose|k: int| first_stray_or_repeated(entries, vals, k);
        let address = entries[k].signer()->0;
        if lookup(vals, address) is None {
            Err(VerificationErrorView::InvalidCommit(CommitFault::UnknownValidator(address)))
        } else {
            Err(VerificationErrorView::InvalidCommit(CommitFault::RepeatedValidator(address)))
        }
    } else {
        Ok(())
    }
}

/// Validates the shape of a commit.
pub trait CommitValidator {
    /// Checks that the commit has one entry per validator.
    fn validate(&self, signed_header: &SignedHeader, validators: &ValidatorSet) -> (outcome: Result<
        (),
        VerificationError,
    >)
        ensures
            check_view(outcome) == check_commit_length(signed_header@, validators@),
    {
        let signatures: usize = signed_header.commit.signatures.len();
        let expected: usize = validators.len();
        if signatures == expected {
            Ok(())
        } else {
            Err(
                VerificationError::InvalidCommit(
                    CommitFault::LengthMismatch { signatures, validators: expected },
                ),
            )
        }
    }

    /// Checks that every signer of the commit is in the validator set, and
    /// that none signs twice.
    fn validate_full(&self, signed_header: &SignedHeader, validators: &ValidatorSet) -> (outcome:
        Result<(), VerificationError>)
        ensures
            check_view(outcome) == check_commit_signers(signed_header@, validators@),
    {
        let entries = &signed_header.commit.signatures;
        let mut k: usize = 0;
        while k < entries.len()
            invariant
                k <= entries.len(),
                entries@ == signed_header@.commit.signatures,
                forall|j: int| 0 <= j < k ==> !stray_or_repeated(entries@, validators@, j),
            decreases entries.len() - k,
        {
            match entries[k].validator_address() {
                None => {},
                Some(address) => {
                    let stranger: bool = validators.validator(&address).is_none();
                    if stranger || signed_before(entries, k, &address) {
                        proof {
                            assert(first_stray_or_repeated(entries@, validators@, k as int));
                            let c = choose|c: int|
                                first_stray_or_repeated(entries@, validators@, c);
                            assert(c == k) by {
                                if c < k {
                                    assert(!stray_or_repeated(entries@, validators@, c));
                                }
                            }
                        }
                        if stranger {
                            return Err(
                                VerificationError::InvalidCommit(
                                    CommitFault::UnknownValidator(address),
                                ),
                            );
                        }
                        return Err(
                            VerificationError::InvalidCommit(
                                CommitFault::RepeatedValidator(address),
                            ),
                        );
                    }
                },
            }
            k += 1;
        }
        Ok(())
    }
}

/// The commit validator that does what the trait says, and nothing else.
#[derive(Clone, Copy, Debug, Default)]
pub struct ProdCommitValidator;

impl CommitValidator for ProdCommitValidator {

}

} // verus!
