//! What can go wrong while a light block is verified or fetched.

use crate::light_client::types::{Address, Digest, Height, Signature, Time, Validator};
use crate::light_client::voting_power::VotingPowerTally;
use vstd::prelude::*;

verus! {

/// Why a light block did not pass verification.
#[derive(Clone, Debug, PartialEq, Eq)]
pub enum VerificationError {
    /// The header is dated later than the local clock plus the allowed drift.
    HeaderFromFuture { header_time: Time, now: Time },
    /// The header is not dated after the trusted header.
    NonMonotonicBftTime { header_time: Time, trusted_time: Time },
    /// The header is not higher than the trusted header.
    NonMonotonicHeight { got: Height, trusted: Height },
    /// The validator set does not hash to what the header announces.
    InvalidValidatorSet { header_validators_hash: Digest, validators_hash: Digest },
    /// The next validator set does not hash to what the header announces, or
    /// the validator set of an adjacent header is not the one that the
    /// trusted header announced.
    InvalidNextValidatorSet { header_next_validators_hash: Digest, next_validators_hash: Digest },
    /// The commit is for another header.
    InvalidCommitValue { header_hash: Digest, commit_hash: Digest },
    /// The commit is malformed.
    InvalidCommit(CommitFault),
    /// A signature of a known validator does not verify.
    InvalidSignature { signature: Signature, validator: Validator, sign_bytes: Vec<u8> },
    /// A validator signed more than once.
    DuplicateValidator(Address),
    /// Too little of the trusted validators' power has signed.
    NotEnoughTrust(VotingPowerTally),
    /// Too little of the header's own validators' power has signed.
    InsufficientSignersOverlap(VotingPowerTally),
    /// The trusted block is older than the trusting period allows.
    Expired { trusted_time: Time, now: Time },
}

/// How a commit is malformed.
#[derive(Clone, Copy, Debug, PartialEq, Eq)]
pub enum CommitFault {
    /// The number of entries differs from the number of validators.
    LengthMismatch { signatures: usize, validators: usize },
    /// An entry is signed by an address that is not in the validator set.
    UnknownValidator(Address),
    /// Two entries are signed by the same address.
    RepeatedValidator(Address),
}

/// Mathematical view of a [`VerificationError`].
pub enum VerificationErrorView {
    HeaderFromFuture { header_time: Time, now: Time },
    NonMonotonicBftTime { header_time: Time, trusted_time: Time },
    NonMonotonicHeight { got: Height, trusted: Height },
    InvalidValidatorSet { header_validators_hash: Digest, validators_hash: Digest },
    InvalidNextValidatorSet { header_next_validators_hash: Digest, next_validators_hash: Digest },
    InvalidCommitValue { header_hash: Digest, commit_hash: Digest },
    InvalidCommit(CommitFault),
    InvalidSignature { signature: Signature, validator: Validator, sign_bytes: Seq<u8> },
    DuplicateValidator(Address),
    NotEnoughTrust(VotingPowerTally),
    InsufficientSignersOverlap(VotingPowerTally),
    Expired { trusted_time: Time, now: Time },
}

impl View for VerificationError {
    type V = VerificationErrorView;

    open spec fn view(&self) -> VerificationErrorView {
        match *self {
            VerificationError::HeaderFromFuture { header_time, now } => {
                VerificationErrorView::HeaderFromFuture { header_time, now }
            },
            VerificationError::NonMonotonicBftTime { header_time, trusted_time } => {
                VerificationErrorView::NonMonotonicBftTime { header_time, trusted_time }
            },
            VerificationError::NonMonotonicHeight { got, trusted } => {
                VerificationErrorView::NonMonotonicHeight { got, trusted }
            },
            VerificationError::InvalidValidatorSet { header_validators_hash, validators_hash } => {
                VerificationErrorView::InvalidValidatorSet {
                    header_validators_hash,
                    validators_hash,
                }
            },
            VerificationError::InvalidNextValidatorSet {
                header_next_validators_hash,
                next_validators_hash,
            } => {
                VerificationErrorView::InvalidNextValidatorSet {
                    header_next_validators_hash,
                    next_validators_hash,
                }
            },
            VerificationError::InvalidCommitValue { header_hash, commit_hash } => {
                VerificationErrorView::InvalidCommitValue { header_hash, commit_hash }
            },
            VerificationError::InvalidCommit(fault) => VerificationErrorView::InvalidCommit(fault),
            VerificationError::InvalidSignature { signature, validator, sign_bytes } => {
                VerificationErrorView::InvalidSignature {
                    signature,
                    validator,
                    sign_bytes: sign_bytes@,
                }
            },
            VerificationError::DuplicateValidator(address) => {
                VerificationErrorView::DuplicateValidator(address)
            },
            VerificationError::NotEnoughTrust(tally) => VerificationErrorView::NotEnoughTrust(tally),
            VerificationError::InsufficientSignersOverlap(tally) => {
                VerificationErrorView::InsufficientSignersOverlap(tally)
            },
            VerificationError::Expired { trusted_time, now } => {
                VerificationErrorView::Expired { trusted_time, now }
            },
        }
    }
}

impl VerificationErrorView {
    /// The error says that trust is short, which bisection may mend.
    pub open spec fn is_shortfall_of_trust(self) -> bool {
        self is NotEnoughTrust
    }
}

impl VerificationError {
    /// Tells whether the error says that trust is short, which bisection may
    /// mend. Every other error is final.
    pub fn not_enough_trust(&self) -> (short: bool)
        ensures
            short == self@.is_shortfall_of_trust(),
    {
        match self {
            VerificationError::NotEnoughTrust(_) => true,
            _ => false,
        }
    }
}

/// View of the outcome of a check: nothing, or the view of its error.
pub open spec fn check_view(outcome: Result<(), VerificationError>) -> Result<
    (),
    VerificationErrorView,
> {
    match outcome {
        Ok(()) => Ok(()),
        Err(e) => Err(e@),
    }
}

/// View of the outcome of a tally: the tally, or the view of its error.
pub open spec fn tally_view(outcome: Result<VotingPowerTally, VerificationError>) -> Result<
    VotingPowerTally,
    VerificationErrorView,
> {
    match outcome {
        Ok(tally) => Ok(tally),
        Err(e) => Err(e@),
    }
}

/// Why a light block could not be fetched from a peer.
#[derive(Clone, Debug, PartialEq, Eq)]
pub enum IoError {
    /// The peer did not answer in time.
    Timeout,
    /// The peer answered with an error.
    RpcError(String),
    /// The peer answered with a block of another height than was asked for.
    InvalidHeight,
    /// The peer answered with a validator set that cannot be one.
    InvalidValidatorSet,
    /// The peer answered with a signature that cannot be one.
    InvalidSignature,
}

/// Why the light client could not bring a target height to trust.
#[derive(Clone, Debug, PartialEq, Eq)]
pub enum Error {
    /// A block could not be fetched.
    Io(IoError),
    /// A block did not pass verification.
    InvalidLightBlock(VerificationError),
    /// The store holds no trusted block at or below the target height.
    NoTrustedState,
    /// Trust is short for a block that follows the trusted block directly,
    /// so that no height is left to bisect to.
    CannotBisect(VerificationError),
    /// The primary peer has shown itself faulty: nothing is asked of it any
    /// more.
    FaultyPrimary,
    /// The supervisor has shut down.
    Terminated,
}

} // verus!
