//! Verification of a commit: that it is for the header, and that enough of
//! the validators signed it.

use crate::light_client::types::Address;
use crate::lite::types::{
    Commit, Error, Header, HeaderFacts, Time, Validator, Validators, ValidatorsLookup, Vote,
};
use vstd::prelude::*;

verus! {

/// A header is within its trusting period while its time plus the period
/// lies after `now`; from then on it has expired.
pub open spec fn expiry(last_header: HeaderFacts, trusting_period: Time, now: Time) -> Result<
    (),
    Error,
> {
    if last_header.bft_time + trusting_period > now {
        Ok(())
    } else {
        Err(Error::Expired)
    }
}

/// Returns an error if the header has expired according to the given
/// trusting period and current time. If so, the verifier must be reset
/// subjectively.
pub fn expired<H: Header>(last_header: &H, trusting_period: Time, now: Time) -> (outcome: Result<
    (),
    Error,
>)
    ensures
        outcome == expiry(last_header.facts(), trusting_period, now),
{
    if (last_header.bft_time() as u128) + (trusting_period as u128) > now as u128 {
        return Ok(());
    }
    Err(Error::Expired)
}

/// The next validators must hash to what the header announces.
pub open spec fn next_vals_validity<V: Validators>(header: HeaderFacts, next_vals: &V) -> Result<
    (),
    Error,
> {
    if header.next_validators_hash != next_vals.digest() {
        Err(Error::InvalidNextValidators)
    } else {
        Ok(())
    }
}

/// Ensures that the next validators in the header match what was supplied.
pub fn validate_next_vals<H: Header, V: Validators>(header: H, next_vals: &V) -> (outcome: Result<
    (),
    Error,
>)
    ensures
        outcome == next_vals_validity(header.facts(), next_vals),
{
    if !header.next_validators_hash().matches(&next_vals.hash()) {
        return Err(Error::InvalidNextValidators);
    }
    Ok(())
}

/// The validators must hash to what the header announces, and the commit
/// must be for the header. A mismatch of the validators is reported first.
pub open spec fn vals_and_commit_validity<V: Validators, C: Commit>(
    header: HeaderFacts,
    commit: &C,
    vals: &V,
) -> Result<(), Error> {
    if header.validators_hash != vals.digest() {
        Err(Error::InvalidValidators)
    } else if header.hash != commit.committed_hash() {
        Err(Error::InvalidCommitValue)
    } else {
        Ok(())
    }
}

/// Validates the validators and the commit against the header.
pub fn validate_vals_and_commit<H: Header, V: Validators, C: Commit>(
    header: H,
    commit: &C,
    vals: &V,
) -> (outcome: Result<(), Error>)
    ensures
        outcome == vals_and_commit_validity(header.facts(), commit, vals),
{
    // ensure the validators in the header matches what we expect from our state.
    if !header.validators_hash().matches(&vals.hash()) {
        return Err(Error::InvalidValidators);
    }
    // ensure the commit matches the header.
    if !header.hash().matches(&commit.header_hash()) {
        return Err(Error::InvalidCommitValue);
    }
    Ok(())
}

/// The vote in place `i` is there, and its signature does not verify under
/// the key of the validator in the same place.
pub open spec fn bad_vote_at<A: Validator, B: Vote>(vals: Seq<A>, votes: Seq<Option<B>>, i: int)
    -> bool {
    match votes[i] {
        Some(vote) => !vals[i].accepts(vote.signed_bytes(), vote.signature_bytes()),
        None => false,
    }
}

/// The voting power of the validators, among the first `n`, in whose place
/// there is a vote.
pub open spec fn power_signed<A: Validator, B: Vote>(vals: Seq<A>, votes: Seq<Option<B>>, n: int)
    -> nat
    decreases n,
{
    if n <= 0 {
        0
    } else {
        power_signed(vals, votes, n - 1) + if votes[n - 1] is Some {
            vals[n - 1].voting_power() as nat
        } else {
            0
        }
    }
}

/// A commit is fully signed where it has one place per validator, every
/// vote in it verifies under the key of the validator in its place, and the
/// validators that voted hold strictly more than two thirds of the whole
/// set's power. The failures are reported in this order.
pub open spec fn full_commit<V: Validators, C: Commit>(vals: &V, commit: &C) -> Result<(), Error> {
    let members = vals.members();
    let votes = commit.votes();
    if members.len() != votes.len() {
        Err(Error::InvalidCommitLength)
    } else if exists|i: int| 0 <= i < votes.len() && bad_vote_at(members, votes, i) {
        Err(Error::InvalidSignature)
    } else if power_signed(members, votes, votes.len() as int) * 3 <= vals.whole_power() * 2 {
        Err(Error::InsufficientVotingPower)
    } else {
        Ok(())
    }
}

/// The vote in place `i` is there and is cast by a validator of the set,
/// and its signature does not verify under that validator's key.
pub open spec fn bad_known_vote_at<V: ValidatorsLookup, B: Vote>(
    validators: &V,
    votes: Seq<Option<B>>,
    i: int,
) -> bool {
    match votes[i] {
        Some(vote) => match validators.member(vote.voter()) {
            Some(val) => !val.accepts(vote.signed_bytes(), vote.signature_bytes()),
            None => false,
        },
        None => false,
    }
}

/// One of the first `n` votes is cast by `voter`.
pub open spec fn voted_before<B: Vote>(votes: Seq<Option<B>>, n: int, voter: Address) -> bool {
    exists|j: int| 0 <= j < n && voted_at(votes, j, voter)
}

/// The vote in place `j` is there and is cast by `voter`.
pub open spec fn voted_at<B: Vote>(votes: Seq<Option<B>>, j: int, voter: Address) -> bool {
    votes[j] matches Some(vote) && vote.voter() == voter
}

/// The voting power that the vote in place `k` adds: that of its voter,
/// where the voter is a validator of the set and has cast no earlier vote.
/// A validator counts once, however often it votes.
pub open spec fn known_power_at<V: ValidatorsLookup, B: Vote>(
    validators: &V,
    votes: Seq<Option<B>>,
    k: int,
) -> nat {
    match votes[k] {
        Some(vote) => match validators.member(vote.voter()) {
            Some(val) => if voted_before(votes, k, vote.voter()) {
                0
            } else {
                val.voting_power() as nat
            },
            None => 0,
        },
        None => 0,
    }
}

/// The voting power of the validators of the set that cast one of the
/// first `n` votes, each counted once.
pub open spec fn known_power_signed<V: ValidatorsLookup, B: Vote>(
    validators: &V,
    votes: Seq<Option<B>>,
    n: int,
) -> nat
    decreases n,
{
    if n <= 0 {
        0
    } else {
        known_power_signed(validators, votes, n - 1) + known_power_at(validators, votes, n - 1)
    }
}

/// A commit intersects a validator set where every vote in it that a
/// validator of the set cast verifies under that validator's key, and the
/// validators of the set that voted hold strictly more than one third of
/// the set's power, each counted once. A bad signature is reported before a
/// shortfall of power.
pub open spec fn intersecting_commit<V: ValidatorsLookup, C: Commit>(validators: &V, commit: &C)
    -> Result<(), Error> {
    let votes = commit.votes();
    if exists|i: int| 0 <= i < votes.len() && bad_known_vote_at(validators, votes, i) {
        Err(Error::InvalidSignature)
    } else if known_power_signed(validators, votes, votes.len() as int) * 3
        <= validators.whole_power() {
        Err(Error::InsufficientVotingPower)
    } else {
        Ok(())
    }
}

/// What `verify` finds: the header's validators and commit must match, and
/// the commit must be fully signed.
pub open spec fn commit_validity<V: Validators, C: Commit>(
    header: HeaderFacts,
    commit: &C,
    validators: &V,
) -> Result<(), Error> {
    match vals_and_commit_validity(header, commit, validators) {
        Err(e) => Err(e),
        Ok(()) => full_commit(validators, commit),
    }
}

/// What `verify_trusting` finds: the header's validators and commit must
/// match, the commit must intersect the last trusted validators, and it
/// must be fully signed by the header's own.
pub open spec fn trusted_commit_validity<V: ValidatorsLookup, C: Commit>(
    header: HeaderFacts,
    commit: &C,
    last_validators: &V,
    validators: &V,
) -> Result<(), Error> {
    match vals_and_commit_validity(header, commit, validators) {
        Err(e) => Err(e),
        Ok(()) => match intersecting_commit(last_validators, commit) {
            Err(e) => Err(e),
            Ok(()) => full_commit(validators, commit),
        },
    }
}

/// Verifies that the commit is valid from the given validators for the
/// header.
pub fn verify<H: Header, V: Validators, C: Commit>(header: H, commit: C, validators: V) -> (outcome:
    Result<(), Error>)
    ensures
        outcome == commit_validity(header.facts(), &commit, &validators),
{
    if let Err(e) = validate_vals_and_commit(header, &commit, &validators) {
        return Err(e);
    }
    // ensure that +2/3 validators signed correctly
    verify_commit_full(&validators, commit)
}

/// Verifies that the commit is trusted according to the last validators and
/// is valid from the current validators for the header.
pub fn verify_trusting<H: Header, V: ValidatorsLookup, C: Commit>(
    header: H,
    commit: C,
    last_validators: V,
    validators: V,
) -> (outcome: Result<(), Error>)
    ensures
        outcome == trusted_commit_validity(header.facts(), &commit, &last_validators, &validators),
{
    if let Err(e) = validate_vals_and_commit(header, &commit, &validators) {
        return Err(e);
    }
    // ensure that +1/3 of last trusted validators signed correctly
    if let Err(e) = verify_commit_intersection(&last_validators, &commit) {
        return Err(e);
    }
    // ensure that +2/3 of current validators signed correctly
    verify_commit_full(&validators, commit)
}

/// The power of the first `n` places is at most `n` times the largest
/// power there is.
proof fn lemma_power_signed_bounded<A: Validator, B: Vote>(
    vals: Seq<A>,
    votes: Seq<Option<B>>,
    n: int,
)
    requires
        0 <= n,
    ensures
        power_signed(vals, votes, n) <= n * u64::MAX,
    decreases n,
{
    if n > 0 {
        lemma_power_signed_bounded(vals, votes, n - 1);
        assert(power_signed(vals, votes, n) <= (n - 1) * u64::MAX + u64::MAX);
        assert((n - 1) * u64::MAX + u64::MAX == n * u64::MAX) by (nonlinear_arith);
    }
}

proof fn lemma_known_power_signed_bounded<V: ValidatorsLookup, B: Vote>(
    validators: &V,
    votes: Seq<Option<B>>,
    n: int,
)
    requires
        0 <= n,
    ensures
        known_power_signed(validators, votes, n) <= n * u64::MAX,
    decreases n,
{
    if n > 0 {
        lemma_known_power_signed_bounded(validators, votes, n - 1);
        assert(known_power_signed(validators, votes, n) <= (n - 1) * u64::MAX + u64::MAX);
        assert((n - 1) * u64::MAX + u64::MAX == n * u64::MAX) by (nonlinear_arith);
    }
}

/// As many powers as a vector can hold add up to less than 128 bits.
proof fn lemma_sum_fits(n: int)
    requires
        0 <= n <= usize::MAX,
    ensures
        n * u64::MAX <= 0xffff_ffff_ffff_ffff * 0xffff_ffff_ffff_ffff,
        0xffff_ffff_ffff_ffff * 0xffff_ffff_ffff_ffff + 0xffff_ffff_ffff_ffff <= u128::MAX,
{
    assert(n * u64::MAX <= 0xffff_ffff_ffff_ffff * 0xffff_ffff_ffff_ffff) by (nonlinear_arith)
        requires
            0 <= n <= 0xffff_ffff_ffff_ffff,
            u64::MAX == 0xffff_ffff_ffff_ffff,
    ;
}

/// Tells whether `signed` is at most the share `numerator / 3` of `total`.
fn at_most_thirds(signed: u128, total: u64, numerator: u8) -> (short: bool)
    requires
        1 <= numerator <= 2,
    ensures
        short == (signed * 3 <= total * numerator),
{
    assert(total * numerator <= 2 * 0xffff_ffff_ffff_ffff) by (nonlinear_arith)
        requires
            0 <= total <= 0xffff_ffff_ffff_ffff,
            1 <= numerator <= 2,
    ;
    if signed > u64::MAX as u128 {
        false
    } else {
        signed * 3 <= (total as u128) * (numerator as u128)
    }
}

/// Verifies that +2/3 of the correct validator set signed this commit.
/// NOTE: these validators are expected to be the correct validators for the
/// commit.
pub fn verify_commit_full<V: Validators, C: Commit>(vals: &V, commit: C) -> (outcome: Result<
    (),
    Error,
>)
    ensures
        outcome == full_commit(vals, &commit),
{
    let total_power = vals.total_power();
    let mut signed_power: u128 = 0;

    let vals_vec = vals.into_vec();
    let commit_vec = commit.into_vec();

    if vals_vec.len() != commit_vec.len() {
        return Err(Error::InvalidCommitLength);
    }
    // The vals and commit have a 1-to-1 correspondence.
    // This means we don't need the validator IDs or to do any lookup,
    // we can just walk both in step.

    let mut i: usize = 0;
    while i < commit_vec.len()
        invariant
            i <= commit_vec.len(),
            vals_vec.len() == commit_vec.len(),
            vals_vec@ == vals.members(),
            commit_vec@ == commit.votes(),
            forall|j: int| 0 <= j < i ==> !bad_vote_at(vals_vec@, commit_vec@, j),
            signed_power == power_signed(vals_vec@, commit_vec@, i as int),
        decreases commit_vec.len() - i,
    {
        // skip absent and nil votes
        match &commit_vec[i] {
            None => {},
            Some(vote) => {
                let val = &vals_vec[i];
                // check vote is valid from validator
                if !val.verify_signature(vote.sign_bytes(), vote.signature()) {
                    assert(bad_vote_at(vals_vec@, commit_vec@, i as int));
                    return Err(Error::InvalidSignature);
                }
                proof {
                    lemma_power_signed_bounded(vals_vec@, commit_vec@, i as int);
                    lemma_sum_fits(i as int);
                }
                signed_power = signed_power + val.power() as u128;
            },
        }
        i += 1;
    }

    // check the signers account for +2/3 of the voting power
    if at_most_thirds(signed_power, total_power, 2) {
        return Err(Error::InsufficientVotingPower);
    }
    Ok(())
}

/// Tells whether one of the first `n` votes is cast by `voter`.
fn cast_before<B: Vote>(votes: &Vec<Option<B>>, n: usize, voter: &Address) -> (found: bool)
    requires
        n <= votes@.len(),
    ensures
        found == voted_before(votes@, n as int, *voter),
{
    let mut j: usize = 0;
    while j < n
        invariant
            j <= n <= votes@.len(),
            forall|k: int| 0 <= k < j ==> !voted_at(votes@, k, *voter),
        decreases n - j,
    {
        match &votes[j] {
            Some(vote) => {
                if vote.validator_id().matches(voter) {
                    assert(voted_at(votes@, j as int, *voter));
                    return true;
                }
            },
            None => {},
        }
        j += 1;
    }
    false
}

/// Verifies that +1/3 of the given validator set signed this commit.
/// NOTE the given validators do not necessarily correspond to the validator
/// set for this commit, but there may be some intersection.
pub fn verify_commit_intersection<V: ValidatorsLookup, C: Commit>(validators: &V, commit: &C)
    -> (outcome: Result<(), Error>)
    ensures
        outcome == intersecting_commit(validators, commit),
{
    let total_power = validators.total_power();
    let mut signed_power: u128 = 0;

    // NOTE we don't know the validators that committed this block,
    // so we have to check for each vote if its validator is already known.
    let commit_vec = commit.into_vec();
    let mut i: usize = 0;
    while i < commit_vec.len()
        invariant
            i <= commit_vec.len(),
            commit_vec@ == commit.votes(),
            forall|j: int| 0 <= j < i ==> !bad_known_vote_at(validators, commit_vec@, j),
            signed_power == known_power_signed(validators, commit_vec@, i as int),
        decreases commit_vec.len() - i,
    {
        // skip absent and nil votes
        match &commit_vec[i] {
            None => {},
            Some(vote) => {
                // check if this vote is from a known validator
                let val_id = vote.validator_id();
                match validators.validator(val_id) {
                    None => {},
                    Some(val) => {
                        // check vote is valid from validator
                        if !val.verify_signature(vote.sign_bytes(), vote.signature()) {
                            assert(bad_known_vote_at(validators, commit_vec@, i as int));
                            return Err(Error::InvalidSignature);
                        }
                        // a validator counts once, however often it votes
                        if !cast_before(&commit_vec, i, &val_id) {
                            proof {
                                lemma_known_power_signed_bounded(
                                    validators,
                                    commit_vec@,
                                    i as int,
                                );
                                lemma_sum_fits(i as int);
                            }
                            signed_power = signed_power + val.power() as u128;
                        }
                    },
                }
            },
        }
        i += 1;
    }

    // check the signers account for +1/3 of the voting power
    if at_most_thirds(signed_power, total_power, 1) {
        return Err(Error::InsufficientVotingPower);
    }
    Ok(())
}

} // verus!
