//! The verifier: whether an untrusted light block is valid, and whether it
//! is to be trusted on the strength of a block that already is.

use crate::light_client::commit_validator::CommitValidator;
use crate::light_client::errors::{check_view, VerificationError, VerificationErrorView};
use crate::light_client::hasher::Hasher;
use crate::light_client::predicates::{verification, verify, VerificationPredicates};
use crate::light_client::types::{LightBlock, LightBlockView, Options, Time};
use crate::light_client::voting_power::VotingPowerCalculator;
use vstd::prelude::*;

verus! {

/// The result of the verification performed by the verifier.
#[derive(Clone, Debug, PartialEq, Eq)]
pub enum Verdict {
    /// Verification succeeded, the block is valid.
    Success,
    /// The minimum voting power threshold is not reached, the block cannot
    /// be trusted yet.
    NotEnoughTrust(VerificationError),
    /// Verification failed, the block is invalid.
    Invalid(VerificationError),
}

/// Mathematical view of a [`Verdict`].
pub enum VerdictView {
    Success,
    NotEnoughTrust(VerificationErrorView),
    Invalid(VerificationErrorView),
}

impl View for Verdict {
    type V = VerdictView;

    open spec fn view(&self) -> VerdictView {
        match *self {
            Verdict::Success => VerdictView::Success,
            Verdict::NotEnoughTrust(e) => VerdictView::NotEnoughTrust(e@),
            Verdict::Invalid(e) => VerdictView::Invalid(e@),
        }
    }
}

/// The verdict that the outcome of verification amounts to: success where
/// nothing failed, not enough trust where trust was short, invalid for every
/// other failure.
pub open spec fn verdict_of(outcome: Result<(), VerificationErrorView>) -> VerdictView {
    match outcome {
        Ok(()) => VerdictView::Success,
        Err(e) => if e.is_shortfall_of_trust() {
            VerdictView::NotEnoughTrust(e)
        } else {
            VerdictView::Invalid(e)
        },
    }
}

impl Verdict {
    /// The verdict that the outcome of verification amounts to.
    pub fn from_outcome(result: Result<(), VerificationError>) -> (verdict: Verdict)
        ensures
            verdict@ == verdict_of(check_view(result)),
    {
        match result {
            Ok(()) => Verdict::Success,
            Err(e) => if e.not_enough_trust() {
                Verdict::NotEnoughTrust(e)
            } else {
                Verdict::Invalid(e)
            },
        }
    }

    /// Tells whether verification succeeded.
    pub fn is_success(&self) -> (success: bool)
        ensures
            success == (self@ is Success),
    {
        match self {
            Verdict::Success => true,
            _ => false,
        }
    }
}

impl From<Result<(), VerificationError>> for Verdict {
    fn from(result: Result<(), VerificationError>) -> (verdict: Verdict) {
        match result {
            Ok(()) => Verdict::Success,
            Err(e) => if e.not_enough_trust() {
                Verdict::NotEnoughTrust(e)
            } else {
                Verdict::Invalid(e)
            },
        }
    }
}

impl vstd::std_specs::convert::FromSpecImpl<Result<(), VerificationError>> for Verdict {
    open spec fn obeys_from_spec() -> bool {
        true
    }

    open spec fn from_spec(result: Result<(), VerificationError>) -> Verdict {
        match result {
            Ok(()) => Verdict::Success,
            Err(e) => if e@.is_shortfall_of_trust() {
                Verdict::NotEnoughTrust(e)
            } else {
                Verdict::Invalid(e)
            },
        }
    }
}

/// Tells the time.
pub trait Clock {
    /// The current time.
    fn now(&self) -> Time;
}

/// The verifier checks whether a given untrusted light block is valid, and
/// whether it is to be trusted on the strength of a trusted block.
pub trait Verifier {
    /// The verdict that this verifier reaches at the time `now`.
    spec fn verdict_at(
        &self,
        untrusted: LightBlockView,
        trusted: LightBlockView,
        options: Options,
        now: Time,
    ) -> VerdictView;

    /// Performs the verification, at the time that the verifier's clock
    /// tells.
    fn verify(&self, untrusted: &LightBlock, trusted: &LightBlock, options: &Options) -> (verdict:
        Verdict)
        ensures
            exists|now: Time| verdict@ == #[trigger] self.verdict_at(
                untrusted@,
                trusted@,
                *options,
                now,
            ),
    ;
}

/// The verifier in production. It is made of a set of predicates that
/// validate a light block, a voting power calculator, a commit validator, a
/// hasher and a clock, each of which can be replaced.
pub struct ProdVerifier<
    P: VerificationPredicates,
    V: VotingPowerCalculator,
    C: CommitValidator,
    H: Hasher,
    K: Clock,
> {
    pub predicates: P,
    pub voting_power_calculator: V,
    pub commit_validator: C,
    pub header_hasher: H,
    pub clock: K,
}

impl<
    P: VerificationPredicates,
    V: VotingPowerCalculator,
    C: CommitValidator,
    H: Hasher,
    K: Clock,
> ProdVerifier<P, V, C, H, K> {
    /// The verifier made of the given parts.
    pub fn new(
        predicates: P,
        voting_power_calculator: V,
        commit_validator: C,
        header_hasher: H,
        clock: K,
    ) -> (verifier: Self)
        ensures
            verifier.predicates == predicates,
            verifier.voting_power_calculator == voting_power_calculator,
            verifier.commit_validator == commit_validator,
            verifier.header_hasher == header_hasher,
            verifier.clock == clock,
    {
        ProdVerifier { predicates, voting_power_calculator, commit_validator, header_hasher, clock }
    }

    /// Performs the verification as of the time `now`.
    pub fn verify_at(
        &self,
        untrusted: &LightBlock,
        trusted: &LightBlock,
        options: &Options,
        now: Time,
    ) -> (verdict: Verdict)
        ensures
            verdict@ == verdict_of(
                verification(
                    self.voting_power_calculator,
                    self.header_hasher,
                    trusted@,
                    untrusted@,
                    *options,
                    now,
                ),
            ),
    {
        Verdict::from_outcome(
            verify(
                &self.predicates,
                &self.voting_power_calculator,
                &self.commit_validator,
                &self.header_hasher,
                trusted,
                untrusted,
                options,
                now,
            ),
        )
    }
}

impl<
    P: VerificationPredicates + Default,
    V: VotingPowerCalculator + Default,
    C: CommitValidator + Default,
    H: Hasher + Default,
    K: Clock + Default,
> Default for ProdVerifier<P, V, C, H, K> {
    /// The verifier made of the default of each of its parts.
    fn default() -> (verifier: Self) {
        Self::new(P::default(), V::default(), C::default(), H::default(), K::default())
    }
}

impl<
    P: VerificationPredicates,
    V: VotingPowerCalculator,
    C: CommitValidator,
    H: Hasher,
    K: Clock,
> Verifier for ProdVerifier<P, V, C, H, K> {
    open spec fn verdict_at(
        &self,
        untrusted: LightBlockView,
        trusted: LightBlockView,
        options: Options,
        now: Time,
    ) -> VerdictView {
        verdict_of(
            verification(
                self.voting_power_calculator,
                self.header_hasher,
                trusted,
                untrusted,
                options,
                now,
            ),
        )
    }

    fn verify(&self, untrusted: &LightBlock, trusted: &LightBlock, options: &Options) -> (verdict:
        Verdict) {
        let now = self.clock.now();
        let verdict = self.verify_at(untrusted, trusted, options, now);
        assert(verdict@ == self.verdict_at(untrusted@, trusted@, *options, now));
        verdict
    }
}

} // verus!
