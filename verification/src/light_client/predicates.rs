//! The checks that a light block passes before it is trusted, and the order
//! in which they are made.

use crate::light_client::commit_validator::{
    check_commit_length, check_commit_signers, CommitValidator,
};
use crate::light_client::errors::{check_view, VerificationError, VerificationErrorView};
use crate::light_client::hasher::Hasher;
use crate::light_client::types::{
    Digest, Duration, Header, HeaderView, LightBlock, LightBlockView, Options, SignedHeader,
    SignedHeaderView, Time, TrustThreshold, Validator, ValidatorSet,
};
use crate::light_client::voting_power::{enough_trust, signers_overlap, VotingPowerCalculator};
use vstd::prelude::*;

verus! {

/// The validator set hashes to what the header announces.
pub open spec fn check_validator_sets_match(header: HeaderView, validators_hash: Digest) -> Result<
    (),
    VerificationErrorView,
> {
    if header.validators_hash == validators_hash {
        Ok(())
    } else {
        Err(
            VerificationErrorView::InvalidValidatorSet {
                header_validators_hash: header.validators_hash,
                validators_hash,
            },
        )
    }
}

/// The next validator set hashes to what the header announces.
pub open spec fn check_next_validators_match(header: HeaderView, next_validators_hash: Digest)
    -> Result<(), VerificationErrorView> {
    if header.next_validators_hash == next_validators_hash {
        Ok(())
    } else {
        Err(
            VerificationErrorView::InvalidNextValidatorSet {
                header_next_validators_hash: header.next_validators_hash,
                next_validators_hash,
            },
        )
    }
}

/// The commit is for the header: its block id holds the header's hash.
pub open spec fn check_header_matches_commit(signed_header: SignedHeaderView, header_hash: Digest)
    -> Result<(), VerificationErrorView> {
    if header_hash == signed_header.commit.block_id.hash {
        Ok(())
    } else {
        Err(
            VerificationErrorView::InvalidCommitValue {
                header_hash,
                commit_hash: signed_header.commit.block_id.hash,
            },
        )
    }
}

/// The commit is well formed: one entry per validator, every signer a
/// validator, none signing twice.
pub open spec fn check_valid_commit(signed_header: SignedHeaderView, vals: Seq<Validator>)
    -> Result<(), VerificationErrorView> {
    first_failure(
        seq![check_commit_length(signed_header, vals), check_commit_signers(signed_header, vals)],
    )
}

/// The trusted header is still within its trusting period:
/// its time plus the period lies after `now`.
pub open spec fn check_within_trust_period(
    trusted_header: HeaderView,
    trusting_period: Duration,
    now: Time,
) -> Result<(), VerificationErrorView> {
    if trusted_header.time.0 + trusting_period.0 > now.0 {
        Ok(())
    } else {
        Err(VerificationErrorView::Expired { trusted_time: trusted_header.time, now })
    }
}

/// The header is not from the future: its time lies before `now` plus the
/// clock drift.
pub open spec fn check_header_from_past(
    untrusted_header: HeaderView,
    clock_drift: Duration,
    now: Time,
) -> Result<(), VerificationErrorView> {
    if untrusted_header.time.0 < now.0 + clock_drift.0 {
        Ok(())
    } else {
        Err(VerificationErrorView::HeaderFromFuture { header_time: untrusted_header.time, now })
    }
}

/// The header is dated after the trusted header.
pub open spec fn check_monotonic_bft_time(untrusted_header: HeaderView, trusted_header: HeaderView)
    -> Result<(), VerificationErrorView> {
    if untrusted_header.time.0 > trusted_header.time.0 {
        Ok(())
    } else {
        Err(
            VerificationErrorView::NonMonotonicBftTime {
                header_time: untrusted_header.time,
                trusted_time: trusted_header.time,
            },
        )
    }
}

/// The header is higher than the trusted header.
pub open spec fn check_monotonic_height(untrusted_header: HeaderView, trusted_header: HeaderView)
    -> Result<(), VerificationErrorView> {
    if untrusted_header.height > trusted_header.height {
        Ok(())
    } else {
        Err(
            VerificationErrorView::NonMonotonicHeight {
                got: untrusted_header.height,
                trusted: trusted_header.height,
            },
        )
    }
}

/// The validator set of a header that follows the trusted one directly
/// hashes to what the trusted header announced as its next validators.
pub open spec fn check_valid_next_validator_set(
    validators_hash: Digest,
    trusted_header: HeaderView,
) -> Result<(), VerificationErrorView> {
    if validators_hash == trusted_header.next_validators_hash {
        Ok(())
    } else {
        Err(
            VerificationErrorView::InvalidNextValidatorSet {
                header_next_validators_hash: trusted_header.next_validators_hash,
                next_validators_hash: validators_hash,
            },
        )
    }
}

/// The untrusted block follows the trusted block directly.
pub open spec fn adjacent(untrusted: LightBlockView, trusted: LightBlockView) -> bool {
    untrusted.height() == trusted.height() + 1
}

/// The first error among `checks`, in their order; none where all pass.
pub open spec fn first_failure(checks: Seq<Result<(), VerificationErrorView>>) -> Result<
    (),
    VerificationErrorView,
>
    decreases checks.len(),
{
    if checks.len() == 0 {
        Ok(())
    } else if checks[0] is Err {
        checks[0]
    } else {
        first_failure(checks.drop_first())
    }
}

/// The checks on the untrusted block alone.
pub open spec fn own_checks<H: Hasher>(hasher: H, untrusted: LightBlockView) -> Seq<
    Result<(), VerificationErrorView>,
> {
    seq![
        check_validator_sets_match(
            untrusted.signed_header.header,
            hasher.validator_set_digest(untrusted.validators),
        ),
        check_next_validators_match(
            untrusted.signed_header.header,
            hasher.validator_set_digest(untrusted.next_validators),
        ),
        check_header_matches_commit(
            untrusted.signed_header,
            hasher.header_digest(untrusted.signed_header.header),
        ),
        check_valid_commit(untrusted.signed_header, untrusted.validators),
    ]
}

/// The checks of time and height against the trusted block.
pub open spec fn time_checks(
    trusted: LightBlockView,
    untrusted: LightBlockView,
    options: Options,
    now: Time,
) -> Seq<Result<(), VerificationErrorView>> {
    seq![
        check_within_trust_period(trusted.signed_header.header, options.trusting_period, now),
        check_header_from_past(untrusted.signed_header.header, options.clock_drift, now),
        check_monotonic_bft_time(untrusted.signed_header.header, trusted.signed_header.header),
        check_monotonic_height(untrusted.signed_header.header, trusted.signed_header.header),
    ]
}

/// The check that the trusted block vouches for the untrusted one: for an
/// adjacent block, that its validators are the ones announced; for any
/// other, that enough of the trusted block's next validators signed it.
pub open spec fn trust_check<V: VotingPowerCalculator, H: Hasher>(
    calculator: V,
    hasher: H,
    trusted: LightBlockView,
    untrusted: LightBlockView,
    options: Options,
) -> Result<(), VerificationErrorView> {
    if adjacent(untrusted, trusted) {
        check_valid_next_validator_set(
            hasher.validator_set_digest(untrusted.validators),
            trusted.signed_header.header,
        )
    } else {
        enough_trust(
            calculator.tally(
                untrusted.signed_header,
                trusted.next_validators,
                options.trust_threshold,
            ),
            options.trust_threshold,
        )
    }
}

/// The check that more than two thirds of the untrusted block's own
/// validators signed it.
pub open spec fn overlap_check<V: VotingPowerCalculator>(calculator: V, untrusted: LightBlockView)
    -> Result<(), VerificationErrorView> {
    signers_overlap(
        calculator.tally(
            untrusted.signed_header,
            untrusted.validators,
            TrustThreshold::fraction(2, 3),
        ),
    )
}

/// What verification of `untrusted` against `trusted` at the time `now`
/// finds: the first failure among the checks on the untrusted block alone,
/// the checks of time and height, the trust check and the overlap check, in
/// this order.
pub open spec fn verification<V: VotingPowerCalculator, H: Hasher>(
    calculator: V,
    hasher: H,
    trusted: LightBlockView,
    untrusted: LightBlockView,
    options: Options,
    now: Time,
) -> Result<(), VerificationErrorView> {
    first_failure(
        own_checks(hasher, untrusted) + time_checks(trusted, untrusted, options, now) + seq![
            trust_check(calculator, hasher, trusted, untrusted, options),
            overlap_check(calculator, untrusted),
        ],
    )
}

/// The predicates that verification is made of. Each says what it checks;
/// an implementation chooses how.
pub trait VerificationPredicates {
    /// Checks that the block's validator set hashes to what its header
    /// announces.
    fn validator_sets_match<H: Hasher>(&self, light_block: &LightBlock, hasher: &H) -> (outcome:
        Result<(), VerificationError>)
        ensures
            check_view(outcome) == check_validator_sets_match(
                light_block@.signed_header.header,
                hasher.validator_set_digest(light_block@.validators),
            ),
    {
        let validators_hash = hasher.hash_validator_set(&light_block.validators);
        let header_validators_hash = light_block.signed_header.header.validators_hash;
        if header_validators_hash.matches(&validators_hash) {
            Ok(())
        } else {
            Err(VerificationError::InvalidValidatorSet { header_validators_hash, validators_hash })
        }
    }

    /// Checks that the block's next validator set hashes to what its header
    /// announces.
    fn next_validators_match<H: Hasher>(&self, light_block: &LightBlock, hasher: &H) -> (outcome:
        Result<(), VerificationError>)
        ensures
            check_view(outcome) == check_next_validators_match(
                light_block@.signed_header.header,
                hasher.validator_set_digest(light_block@.next_validators),
            ),
    {
        let next_validators_hash = hasher.hash_validator_set(&light_block.next_validators);
        let header_next_validators_hash = light_block.signed_header.header.next_validators_hash;
        if header_next_validators_hash.matches(&next_validators_hash) {
            Ok(())
        } else {
            Err(
                VerificationError::InvalidNextValidatorSet {
                    header_next_validators_hash,
                    next_validators_hash,
                },
            )
        }
    }

    /// Checks that the commit is for the header it comes with.
    fn header_matches_commit<H: Hasher>(&self, signed_header: &SignedHeader, hasher: &H) -> (outcome:
        Result<(), VerificationError>)
        ensures
            check_view(outcome) == check_header_matches_commit(
                signed_header@,
                hasher.header_digest(signed_header@.header),
            ),
    {
        let header_hash = hasher.hash_header(&signed_header.header);
        let commit_hash = signed_header.commit.block_id.hash;
        if header_hash.matches(&commit_hash) {
            Ok(())
        } else {
            Err(VerificationError::InvalidCommitValue { header_hash, commit_hash })
        }
    }

    /// Checks that the commit is well formed for the validator set.
    fn valid_commit<C: CommitValidator>(
        &self,
        signed_header: &SignedHeader,
        validators: &ValidatorSet,
        commit_validator: &C,
    ) -> (outcome: Result<(), VerificationError>)
        ensures
            check_view(outcome) == check_valid_commit(signed_header@, validators@),
    {
        proof {
            lemma_first_failure_of_two(
                check_commit_length(signed_header@, validators@),
                check_commit_signers(signed_header@, validators@),
            );
        }
        match commit_validator.validate(signed_header, validators) {
            Err(e) => Err(e),
            Ok(()) => commit_validator.validate_full(signed_header, validators),
        }
    }

    /// Checks that the trusted header is still within its trusting period.
    fn is_within_trust_period(&self, trusted_header: &Header, trusting_period: Duration, now: Time)
        -> (outcome: Result<(), VerificationError>)
        ensures
            check_view(outcome) == check_within_trust_period(
                trusted_header@,
                trusting_period,
                now,
            ),
    {
        if (trusted_header.time.0 as u128) + (trusting_period.0 as u128) > now.0 as u128 {
            Ok(())
        } else {
            Err(VerificationError::Expired { trusted_time: trusted_header.time, now })
        }
    }

    /// Checks that the header is not dated in the future, the clock drift
    /// allowed for.
    fn is_header_from_past(&self, untrusted_header: &Header, clock_drift: Duration, now: Time)
        -> (outcome: Result<(), VerificationError>)
        ensures
            check_view(outcome) == check_header_from_past(untrusted_header@, clock_drift, now),
    {
        if (untrusted_header.time.0 as u128) < (now.0 as u128) + (clock_drift.0 as u128) {
            Ok(())
        } else {
            Err(VerificationError::HeaderFromFuture { header_time: untrusted_header.time, now })
        }
    }

    /// Checks that the header is dated after the trusted header.
    fn is_monotonic_bft_time(&self, untrusted_header: &Header, trusted_header: &Header)
        -> (outcome: Result<(), VerificationError>)
        ensures
            check_view(outcome) == check_monotonic_bft_time(untrusted_header@, trusted_header@),
    {
        if untrusted_header.time.0 > trusted_header.time.0 {
            Ok(())
        } else {
            Err(
                VerificationError::NonMonotonicBftTime {
                    header_time: untrusted_header.time,
                    trusted_time: trusted_header.time,
                },
            )
        }
    }

    /// Checks that the header is higher than the trusted header.
    fn is_monotonic_height(&self, untrusted_header: &Header, trusted_header: &Header) -> (outcome:
        Result<(), VerificationError>)
        ensures
            check_view(outcome) == check_monotonic_height(untrusted_header@, trusted_header@),
    {
        if untrusted_header.height > trusted_header.height {
            Ok(())
        } else {
            Err(
                VerificationError::NonMonotonicHeight {
                    got: untrusted_header.height,
                    trusted: trusted_header.height,
                },
            )
        }
    }

    /// Checks that enough of the trusted validators signed the untrusted
    /// header.
    fn has_sufficient_validators_overlap<V: VotingPowerCalculator>(
        &self,
        untrusted_sh: &SignedHeader,
        trusted_validators: &ValidatorSet,
        trust_threshold: &TrustThreshold,
        calculator: &V,
    ) -> (outcome: Result<(), VerificationError>)
        ensures
            check_view(outcome) == enough_trust(
                calculator.tally(untrusted_sh@, trusted_validators@, *trust_threshold),
                *trust_threshold,
            ),
    {
        calculator.check_enough_trust(untrusted_sh, trusted_validators, *trust_threshold)
    }

    /// Checks that more than two thirds of the untrusted header's own
    /// validators signed it.
    fn has_sufficient_signers_overlap<V: VotingPowerCalculator>(
        &self,
        untrusted_sh: &SignedHeader,
        untrusted_validators: &ValidatorSet,
        calculator: &V,
    ) -> (outcome: Result<(), VerificationError>)
        ensures
            check_view(outcome) == signers_overlap(
                calculator.tally(
                    untrusted_sh@,
                    untrusted_validators@,
                    TrustThreshold::fraction(2, 3),
                ),
            ),
    {
        calculator.check_signers_overlap(untrusted_sh, untrusted_validators)
    }

    /// Checks that the validators of a block that follows the trusted block
    /// directly are the ones that the trusted header announced.
    fn valid_next_validator_set<H: Hasher>(
        &self,
        light_block: &LightBlock,
        trusted_state: &LightBlock,
        hasher: &H,
    ) -> (outcome: Result<(), VerificationError>)
        ensures
            check_view(outcome) == check_valid_next_validator_set(
                hasher.validator_set_digest(light_block@.validators),
                trusted_state@.signed_header.header,
            ),
    {
        let validators_hash = hasher.hash_validator_set(&light_block.validators);
        let announced = trusted_state.signed_header.header.next_validators_hash;
        if validators_hash.matches(&announced) {
            Ok(())
        } else {
            Err(
                VerificationError::InvalidNextValidatorSet {
                    header_next_validators_hash: announced,
                    next_validators_hash: validators_hash,
                },
            )
        }
    }
}

/// The predicates as the trait gives them.
#[derive(Clone, Copy, Debug, Default)]
pub struct ProdPredicates;

impl VerificationPredicates for ProdPredicates {

}

/// Of two checks, the first failure is the first check's where it fails,
/// and the second check's otherwise.
pub proof fn lemma_first_failure_of_two(
    a: Result<(), VerificationErrorView>,
    b: Result<(), VerificationErrorView>,
)
    ensures
        first_failure(seq![a, b]) == if a is Err {
            a
        } else {
            b
        },
{
    let checks = seq![a, b];
    reveal_with_fuel(first_failure, 3);
    if a is Ok {
        let last = seq![b];
        assert(checks.drop_first() =~= last);
        assert(last[0] == b);
        match b {
            Ok(unit) => {
                assert(last.drop_first().len() == 0);
                assert(unit == ());
                assert(b == Ok::<(), VerificationErrorView>(unit));
            },
            Err(_) => {},
        }
    }
}

/// A check that passes at the head of a list leaves the first failure to
/// the rest; one that fails decides.
pub proof fn lemma_first_failure_step(
    head: Result<(), VerificationErrorView>,
    rest: Seq<Result<(), VerificationErrorView>>,
)
    ensures
        first_failure(seq![head] + rest) == if head is Err {
            head
        } else {
            first_failure(rest)
        },
{
    assert((seq![head] + rest).drop_first() =~= rest);
}

/// Verifies the `untrusted` block against the `trusted` block at the time
/// `now`: every check in turn, up to the first that fails.
pub fn verify<P: VerificationPredicates, V: VotingPowerCalculator, C: CommitValidator, H: Hasher>(
    vp: &P,
    voting_power_calculator: &V,
    commit_validator: &C,
    header_hasher: &H,
    trusted: &LightBlock,
    untrusted: &LightBlock,
    options: &Options,
    now: Time,
) -> (outcome: Result<(), VerificationError>)
    ensures
        check_view(outcome) == verification(
            *voting_power_calculator,
            *header_hasher,
            trusted@,
            untrusted@,
            *options,
            now,
        ),
{
    let ghost own = own_checks(*header_hasher, untrusted@);
    let ghost time = time_checks(trusted@, untrusted@, *options, now);
    let ghost trust = trust_check(
        *voting_power_calculator,
        *header_hasher,
        trusted@,
        untrusted@,
        *options,
    );
    let ghost overlap = overlap_check(*voting_power_calculator, untrusted@);
    let ghost all = own + time + seq![trust, overlap];
    proof {
        assert(all =~= seq![own[0]] + (seq![own[1]] + (seq![own[2]] + (seq![own[3]] + (seq![
            time[0],
        ] + (seq![time[1]] + (seq![time[2]] + (seq![time[3]] + seq![trust, overlap]))))))));
        lemma_first_failure_step(
            own[0],
            seq![own[1]] + (seq![own[2]] + (seq![own[3]] + (seq![time[0]] + (seq![time[1]] + (seq![
                time[2],
            ] + (seq![time[3]] + seq![trust, overlap])))))),
        );
        lemma_first_failure_step(
            own[1],
            seq![own[2]] + (seq![own[3]] + (seq![time[0]] + (seq![time[1]] + (seq![time[2]] + (seq![
                time[3],
            ] + seq![trust, overlap]))))),
        );
        lemma_first_failure_step(
            own[2],
            seq![own[3]] + (seq![time[0]] + (seq![time[1]] + (seq![time[2]] + (seq![time[3]] + seq![
                trust,
                overlap,
            ])))),
        );
        lemma_first_failure_step(
            own[3],
            seq![time[0]] + (seq![time[1]] + (seq![time[2]] + (seq![time[3]] + seq![
                trust,
                overlap,
            ]))),
        );
        lemma_first_failure_step(
            time[0],
            seq![time[1]] + (seq![time[2]] + (seq![time[3]] + seq![trust, overlap])),
        );
        lemma_first_failure_step(time[1], seq![time[2]] + (seq![time[3]] + seq![trust, overlap]));
        lemma_first_failure_step(time[2], seq![time[3]] + seq![trust, overlap]);
        lemma_first_failure_step(time[3], seq![trust, overlap]);
        lemma_first_failure_of_two(trust, overlap);
    }

    // The untrusted block is consistent in itself
    vp.validator_sets_match(untrusted, header_hasher)?;
    vp.next_validators_match(untrusted, header_hasher)?;
    vp.header_matches_commit(&untrusted.signed_header, header_hasher)?;
    vp.valid_commit(&untrusted.signed_header, &untrusted.validators, commit_validator)?;

    // The trusted block has not expired, and the untrusted block is more
    // recent than it, though not from the future
    vp.is_within_trust_period(&trusted.signed_header.header, options.trusting_period, now)?;
    vp.is_header_from_past(&untrusted.signed_header.header, options.clock_drift, now)?;
    vp.is_monotonic_bft_time(&untrusted.signed_header.header, &trusted.signed_header.header)?;
    vp.is_monotonic_height(&untrusted.signed_header.header, &trusted.signed_header.header)?;

    if trusted.height() < u64::MAX && untrusted.height() == trusted.height() + 1 {
        // The very next block: its validators are the ones announced
        vp.valid_next_validator_set(untrusted, trusted, header_hasher)?;
    } else {
        // Enough of the validators that the trusted block announced signed
        vp.has_sufficient_validators_overlap(
            &untrusted.signed_header,
            &trusted.next_validators,
            &options.trust_threshold,
            voting_power_calculator,
        )?;
    }

    // More than two thirds of the block's own validators signed
    vp.has_sufficient_signers_overlap(
        &untrusted.signed_header,
        &untrusted.validators,
        voting_power_calculator,
    )?;

    Ok(())
}

} // verus!
