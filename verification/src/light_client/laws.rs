//! What holds of every tally and of every verdict, whatever the blocks, the
//! validator sets, the hasher and the signature scheme.

use crate::light_client::commit_validator::{
    check_commit_length, check_commit_signers, first_stray_or_repeated, stray_or_repeated,
};
use crate::light_client::errors::VerificationErrorView;
use crate::light_client::hasher::Hasher;
use crate::light_client::predicates::{
    adjacent, check_valid_commit, check_valid_next_validator_set, first_failure,
    lemma_first_failure_of_two, own_checks, overlap_check, time_checks, trust_check,
    verification,
};
use crate::light_client::signature::SignatureVerifier;
use crate::light_client::types::{
    first_at, lemma_first_at_unique, lemma_position_of, lookup, more_than_two_thirds, position_of,
    total_power, CommitSig, CommitView, LightBlockView, Options, SignedHeaderView, Time,
    TrustThreshold, Validator,
};
use crate::light_client::vote::sign_bytes;
use crate::light_client::verdict::verdict_of;
use crate::light_client::voting_power::{
    bad_signature_at, enough_trust, fails_at, first_failure_at, lemma_tallied_power_bounded, power_at,
    repeats_signer, tallied_power, vote_at, voting_power, ProdVotingPowerCalculator,
    VotingPowerCalculator,
};
use vstd::prelude::*;

verus! {

/// Where the tally cannot go past entry `j`, there is a first entry that it
/// cannot go past, at `j` or before.
pub proof fn lemma_first_failure_exists<S: SignatureVerifier>(
    scheme: S,
    signed_header: SignedHeaderView,
    vals: Seq<Validator>,
    j: int,
) -> (k: int)
    requires
        0 <= j < signed_header.commit.signatures.len(),
        fails_at(scheme, signed_header, vals, j),
    ensures
        0 <= k <= j,
        first_failure_at(scheme, signed_header, vals, k),
    decreases j,
{
    if forall|i: int| 0 <= i < j ==> !fails_at(scheme, signed_header, vals, i) {
        j
    } else {
        let i = choose|i: int| 0 <= i < j && fails_at(scheme, signed_header, vals, i);
        lemma_first_failure_exists(scheme, signed_header, vals, i)
    }
}

/// A tally counts each validator at most once: the tallied power is the sum
/// of what the entries add, it never exceeds the total, and the total is the
/// voting power of the whole validator set.
pub proof fn law_tally_is_bounded<S: SignatureVerifier>(
    scheme: S,
    signed_header: SignedHeaderView,
    vals: Seq<Validator>,
    trust_threshold: TrustThreshold,
)
    requires
        total_power(vals) <= u64::MAX,
    ensures
        voting_power(scheme, signed_header, vals, trust_threshold) matches Ok(t) ==> {
            &&& t.total == total_power(vals)
            &&& t.tallied == tallied_power(
                signed_header.commit.signatures,
                vals,
                signed_header.commit.signatures.len() as int,
            )
            &&& t.tallied <= t.total
        },
{
    let entries = signed_header.commit.signatures;
    if voting_power(scheme, signed_header, vals, trust_threshold) is Ok {
        assert forall|k: int| 0 <= k < entries.len() implies !repeats_signer(entries, k) by {
            if repeats_signer(entries, k) {
                let first = lemma_first_failure_exists(scheme, signed_header, vals, k);
            }
        }
        lemma_tallied_power_bounded(entries, vals, entries.len() as int);
    }
}

/// A commit in which two entries are signed by the same address is never
/// tallied. It is rejected with `DuplicateValidator`, unless a signature in
/// an entry before the second of the two fails to verify first.
pub proof fn law_duplicate_signer_is_rejected<S: SignatureVerifier>(
    scheme: S,
    signed_header: SignedHeaderView,
    vals: Seq<Validator>,
    trust_threshold: TrustThreshold,
    i: int,
    j: int,
)
    requires
        0 <= i < j < signed_header.commit.signatures.len(),
        signed_header.commit.signatures[i].signer() is Some,
        signed_header.commit.signatures[i].signer() == signed_header.commit.signatures[j].signer(),
    ensures
        voting_power(scheme, signed_header, vals, trust_threshold) is Err,
        (forall|k: int| 0 <= k < j ==> !bad_signature_at(scheme, signed_header, vals, k))
            ==> voting_power(
            scheme,
            signed_header,
            vals,
            trust_threshold,
        ) matches Err(VerificationErrorView::DuplicateValidator(_)),
{
    let entries = signed_header.commit.signatures;
    assert(repeats_signer(entries, j));
    let first = lemma_first_failure_exists(scheme, signed_header, vals, j);
    let k = choose|k: int| first_failure_at(scheme, signed_header, vals, k);
    assert(k <= j) by {
        if k > j {
            assert(!fails_at(scheme, signed_header, vals, j));
        }
    }
    if forall|k: int| 0 <= k < j ==> !bad_signature_at(scheme, signed_header, vals, k) {
        if k < j {
            assert(!bad_signature_at(scheme, signed_header, vals, k));
        }
        assert(repeats_signer(entries, k));
    }
}

/// The signed header with entry `k` of its commit replaced by `Absent`.
pub open spec fn with_absent(signed_header: SignedHeaderView, k: int) -> SignedHeaderView {
    SignedHeaderView {
        header: signed_header.header,
        commit: CommitView {
            height: signed_header.commit.height,
            round: signed_header.commit.round,
            block_id: signed_header.commit.block_id,
            signatures: signed_header.commit.signatures.update(k, CommitSig::Absent),
        },
    }
}

proof fn lemma_tallied_power_without_nil(
    entries: Seq<CommitSig>,
    vals: Seq<Validator>,
    k: int,
    n: int,
)
    requires
        0 <= k < entries.len(),
        entries[k] is Nil,
        0 <= n <= entries.len(),
    ensures
        tallied_power(entries.update(k, CommitSig::Absent), vals, n) == tallied_power(
            entries,
            vals,
            n,
        ),
    decreases n,
{
    if n > 0 {
        lemma_tallied_power_without_nil(entries, vals, k, n - 1);
        assert(power_at(entries.update(k, CommitSig::Absent), vals, n - 1) == power_at(
            entries,
            vals,
            n - 1,
        ));
    }
}

/// A signature for nil adds no voting power: where a commit is tallied, the
/// same commit with one of its `Nil` entries marked `Absent` is tallied too,
/// with the same result.
pub proof fn law_nil_adds_no_power<S: SignatureVerifier>(
    scheme: S,
    signed_header: SignedHeaderView,
    vals: Seq<Validator>,
    trust_threshold: TrustThreshold,
    k: int,
)
    requires
        0 <= k < signed_header.commit.signatures.len(),
        signed_header.commit.signatures[k] is Nil,
        voting_power(scheme, signed_header, vals, trust_threshold) is Ok,
    ensures
        voting_power(scheme, with_absent(signed_header, k), vals, trust_threshold) == voting_power(
            scheme,
            signed_header,
            vals,
            trust_threshold,
        ),
{
    let entries = signed_header.commit.signatures;
    let other = with_absent(signed_header, k);
    assert forall|j: int| !first_failure_at(scheme, other, vals, j) by {
        if first_failure_at(scheme, other, vals, j) {
            assert(j != k);
            assert(vote_at(other.commit, j) == vote_at(signed_header.commit, j));
            if repeats_signer(other.commit.signatures, j) {
                let i = choose|i: int|
                    0 <= i < j && (#[trigger] other.commit.signatures[i]).signer()
                        == other.commit.signatures[j].signer();
                assert(i != k);
                assert(entries[i].signer() == entries[j].signer());
                assert(repeats_signer(entries, j));
            }
            assert(fails_at(scheme, signed_header, vals, j));
            let first = lemma_first_failure_exists(scheme, signed_header, vals, j);
        }
    }
    lemma_tallied_power_without_nil(entries, vals, k, entries.len() as int);
}

/// A signature for nil is verified all the same: a commit with a `Nil`
/// entry of a known validator whose signature does not verify is never
/// tallied.
pub proof fn law_nil_signature_is_verified<S: SignatureVerifier>(
    scheme: S,
    signed_header: SignedHeaderView,
    vals: Seq<Validator>,
    trust_threshold: TrustThreshold,
    k: int,
)
    requires
        0 <= k < signed_header.commit.signatures.len(),
        signed_header.commit.signatures[k] is Nil,
        bad_signature_at(scheme, signed_header, vals, k),
    ensures
        voting_power(scheme, signed_header, vals, trust_threshold) is Err,
{
    let first = lemma_first_failure_exists(scheme, signed_header, vals, k);
}

/// A list of checks passes where each of them passes, and only there.
pub proof fn lemma_first_failure_is_ok(checks: Seq<Result<(), VerificationErrorView>>)
    ensures
        first_failure(checks) is Ok <==> forall|i: int|
            0 <= i < checks.len() ==> (#[trigger] checks[i]) is Ok,
    decreases checks.len(),
{
    if checks.len() > 0 {
        let rest = checks.drop_first();
        lemma_first_failure_is_ok(rest);
        if checks[0] is Ok {
            if first_failure(checks) is Ok {
                assert forall|i: int| 0 <= i < checks.len() implies (#[trigger] checks[i]) is Ok by {
                    if i > 0 {
                        assert(rest[i - 1] is Ok);
                    }
                }
            }
            if forall|i: int| 0 <= i < checks.len() ==> (#[trigger] checks[i]) is Ok {
                assert forall|i: int| 0 <= i < rest.len() implies (#[trigger] rest[i]) is Ok by {
                    assert(checks[i + 1] is Ok);
                }
            }
        }
    }
}

/// A share that reaches a threshold reaches every weaker threshold.
pub proof fn lemma_weaker_threshold_is_met(
    threshold: TrustThreshold,
    weaker: TrustThreshold,
    tallied: nat,
    total: nat,
)
    requires
        threshold.wf(),
        weaker.wf(),
        weaker.num() * threshold.den() <= threshold.num() * weaker.den(),
        threshold.met_by(tallied, total),
    ensures
        weaker.met_by(tallied, total),
{
    let n1 = threshold.num() as int;
    let d1 = threshold.den() as int;
    let n2 = weaker.num() as int;
    let d2 = weaker.den() as int;
    let a = tallied as int;
    let b = total as int;
    assert(a * d2 >= b * n2) by (nonlinear_arith)
        requires
            a * d1 >= b * n1,
            n2 * d1 <= n1 * d2,
            d1 > 0,
            d2 > 0,
            a >= 0,
            b >= 0,
            n1 >= 0,
            n2 >= 0,
    {
        assert((a * d1) * d2 >= (b * n1) * d2);
        assert(b * (n1 * d2) >= b * (n2 * d1));
        assert((a * d2) * d1 >= (b * n2) * d1);
    }
}

/// The trust check of the production calculator is monotone in the trust
/// threshold: where enough of a validator set signed a header for one
/// threshold, enough signed it for every weaker one. The tally of the
/// production calculator does not depend on the threshold; of a calculator
/// whose tally does, nothing of the kind can hold.
pub proof fn law_weaker_threshold_keeps_trust<S: SignatureVerifier>(
    calculator: ProdVotingPowerCalculator<S>,
    signed_header: SignedHeaderView,
    vals: Seq<Validator>,
    threshold: TrustThreshold,
    weaker: TrustThreshold,
)
    requires
        threshold.wf(),
        weaker.wf(),
        weaker.num() * threshold.den() <= threshold.num() * weaker.den(),
        enough_trust(calculator.tally(signed_header, vals, threshold), threshold) is Ok,
    ensures
        enough_trust(calculator.tally(signed_header, vals, weaker), weaker) is Ok,
{
    let tally = voting_power(calculator.scheme, signed_header, vals, threshold);
    assert(tally is Ok);
    lemma_weaker_threshold_is_met(
        threshold,
        weaker,
        tally->Ok_0.tallied as nat,
        tally->Ok_0.total as nat,
    );
}

/// Verification with the production calculator is monotone in the trust
/// threshold: a block that is verified with success under one threshold is
/// verified with success under every weaker one, all else being equal.
pub proof fn law_weaker_threshold_keeps_success<S: SignatureVerifier, H: Hasher>(
    calculator: ProdVotingPowerCalculator<S>,
    hasher: H,
    trusted: LightBlockView,
    untrusted: LightBlockView,
    options: Options,
    weaker: Options,
    now: Time,
)
    requires
        options.trust_threshold.wf(),
        weaker.trust_threshold.wf(),
        weaker.trust_threshold.num() * options.trust_threshold.den()
            <= options.trust_threshold.num() * weaker.trust_threshold.den(),
        weaker.trusting_period == options.trusting_period,
        weaker.clock_drift == options.clock_drift,
        verdict_of(verification(calculator, hasher, trusted, untrusted, options, now)) is Success,
    ensures
        verdict_of(verification(calculator, hasher, trusted, untrusted, weaker, now)) is Success,
{
    let before = own_checks(hasher, untrusted) + time_checks(trusted, untrusted, options, now)
        + seq![
        trust_check(calculator, hasher, trusted, untrusted, options),
        overlap_check(calculator, untrusted),
    ];
    let after = own_checks(hasher, untrusted) + time_checks(trusted, untrusted, weaker, now)
        + seq![
        trust_check(calculator, hasher, trusted, untrusted, weaker),
        overlap_check(calculator, untrusted),
    ];
    lemma_first_failure_is_ok(before);
    lemma_first_failure_is_ok(after);
    assert(before[8] is Ok);
    assert(after[8] is Ok) by {
        if !adjacent(untrusted, trusted) {
            let tally = voting_power(
                calculator.scheme,
                untrusted.signed_header,
                trusted.next_validators,
                options.trust_threshold,
            );
            assert(tally is Ok);
            lemma_weaker_threshold_is_met(
                options.trust_threshold,
                weaker.trust_threshold,
                tally->Ok_0.tallied as nat,
                tally->Ok_0.total as nat,
            );
        }
    }
    assert forall|i: int| 0 <= i < after.len() implies (#[trigger] after[i]) is Ok by {
        if i != 8 {
            assert(after[i] == before[i]);
        }
    }
}

/// A block that follows the trusted block directly is trusted on a
/// comparison of hashes alone: its validators must be the ones that the
/// trusted header announced. Neither the trusted block's next validators
/// nor the trust threshold enter the verdict, and no signature is verified
/// against the trusted set.
pub proof fn law_adjacent_block_is_trusted_by_hash<V: VotingPowerCalculator, H: Hasher>(
    calculator: V,
    hasher: H,
    trusted: LightBlockView,
    other_trusted: LightBlockView,
    untrusted: LightBlockView,
    options: Options,
    other_options: Options,
    now: Time,
)
    requires
        adjacent(untrusted, trusted),
        other_trusted.signed_header == trusted.signed_header,
        other_options.trusting_period == options.trusting_period,
        other_options.clock_drift == options.clock_drift,
    ensures
        trust_check(calculator, hasher, trusted, untrusted, options)
            == check_valid_next_validator_set(
            hasher.validator_set_digest(untrusted.validators),
            trusted.signed_header.header,
        ),
        verification(calculator, hasher, other_trusted, untrusted, other_options, now)
            == verification(calculator, hasher, trusted, untrusted, options, now),
{
    let one = own_checks(hasher, untrusted) + time_checks(trusted, untrusted, options, now) + seq![
        trust_check(calculator, hasher, trusted, untrusted, options),
        overlap_check(calculator, untrusted),
    ];
    let two = own_checks(hasher, untrusted) + time_checks(
        other_trusted,
        untrusted,
        other_options,
        now,
    ) + seq![
        trust_check(calculator, hasher, other_trusted, untrusted, other_options),
        overlap_check(calculator, untrusted),
    ];
    assert(one =~= two);
}

/// Where a sequence has an entry that is signed by a stranger or by a
/// signer of an earlier entry, it has a first such entry.
proof fn lemma_first_stray_or_repeated(entries: Seq<CommitSig>, vals: Seq<Validator>, k: int)
    requires
        0 <= k < entries.len(),
        stray_or_repeated(entries, vals, k),
    ensures
        exists|j: int| first_stray_or_repeated(entries, vals, j),
    decreases k,
{
    if forall|j: int| 0 <= j < k ==> !stray_or_repeated(entries, vals, j) {
        assert(first_stray_or_repeated(entries, vals, k));
    } else {
        let j = choose|j: int| 0 <= j < k && stray_or_repeated(entries, vals, j);
        lemma_first_stray_or_repeated(entries, vals, j);
    }
}

/// A block that is verified with success holds together: its validator
/// sets hash to what its header announces, its commit is for its header and
/// has one entry per validator, no address signs twice in the commit, every
/// signer is a validator, and the validators that signed for the block hold
/// more than two thirds of the voting power, each signature verified. The
/// block is later and higher than the trusted block, which has not expired.
pub proof fn law_success_means_a_sound_block<S: SignatureVerifier, H: Hasher>(
    calculator: ProdVotingPowerCalculator<S>,
    hasher: H,
    trusted: LightBlockView,
    untrusted: LightBlockView,
    options: Options,
    now: Time,
)
    requires
        total_power(untrusted.validators) <= u64::MAX,
        verdict_of(verification(calculator, hasher, trusted, untrusted, options, now)) is Success,
    ensures
        hasher.validator_set_digest(untrusted.validators)
            == untrusted.signed_header.header.validators_hash,
        hasher.validator_set_digest(untrusted.next_validators)
            == untrusted.signed_header.header.next_validators_hash,
        hasher.header_digest(untrusted.signed_header.header)
            == untrusted.signed_header.commit.block_id.hash,
        untrusted.signed_header.commit.signatures.len() == untrusted.validators.len(),
        forall|k: int|
            0 <= k < untrusted.signed_header.commit.signatures.len() ==> !stray_or_repeated(
                untrusted.signed_header.commit.signatures,
                untrusted.validators,
                k,
            ) && !bad_signature_at(
                calculator.scheme,
                untrusted.signed_header,
                untrusted.validators,
                k,
            ),
        more_than_two_thirds(
            tallied_power(
                untrusted.signed_header.commit.signatures,
                untrusted.validators,
                untrusted.signed_header.commit.signatures.len() as int,
            ),
            total_power(untrusted.validators),
        ),
        trusted.signed_header.header.time.0 + options.trusting_period.0 > now.0,
        untrusted.signed_header.header.time.0 > trusted.signed_header.header.time.0,
        untrusted.height() > trusted.height(),
{
    let all = own_checks(hasher, untrusted) + time_checks(trusted, untrusted, options, now) + seq![
        trust_check(calculator, hasher, trusted, untrusted, options),
        overlap_check(calculator, untrusted),
    ];
    lemma_first_failure_is_ok(all);
    assert(all[0] is Ok);
    assert(all[1] is Ok);
    assert(all[2] is Ok);
    assert(all[3] is Ok);
    assert(all[4] is Ok);
    assert(all[6] is Ok);
    assert(all[7] is Ok);
    assert(all[9] is Ok);
    let signed_header = untrusted.signed_header;
    let entries = signed_header.commit.signatures;
    let vals = untrusted.validators;
    lemma_first_failure_of_two(
        check_commit_length(signed_header, vals),
        check_commit_signers(signed_header, vals),
    );
    assert(check_valid_commit(signed_header, vals) is Ok);
    let tally = voting_power(calculator.scheme, signed_header, vals, TrustThreshold::fraction(2, 3));
    assert(tally is Ok);
    law_tally_is_bounded(calculator.scheme, signed_header, vals, TrustThreshold::fraction(2, 3));
    assert forall|k: int| 0 <= k < entries.len() implies !stray_or_repeated(entries, vals, k)
        && !bad_signature_at(calculator.scheme, signed_header, vals, k) by {
        if stray_or_repeated(entries, vals, k) {
            lemma_first_stray_or_repeated(entries, vals, k);
        }
        if bad_signature_at(calculator.scheme, signed_header, vals, k) {
            let first = lemma_first_failure_exists(calculator.scheme, signed_header, vals, k);
        }
    }
}

/// A block that follows the trusted block directly is never left short of
/// trust by the production calculator: it is verified with success or found
/// invalid, so that there is always a verdict to end a bisection with.
pub proof fn law_adjacent_block_is_decided<S: SignatureVerifier, H: Hasher>(
    calculator: ProdVotingPowerCalculator<S>,
    hasher: H,
    trusted: LightBlockView,
    untrusted: LightBlockView,
    options: Options,
    now: Time,
)
    requires
        adjacent(untrusted, trusted),
    ensures
        !(verdict_of(
            verification(calculator, hasher, trusted, untrusted, options, now),
        ) is NotEnoughTrust),
{
    let all = own_checks(hasher, untrusted) + time_checks(trusted, untrusted, options, now) + seq![
        trust_check(calculator, hasher, trusted, untrusted, options),
        overlap_check(calculator, untrusted),
    ];
    lemma_first_failure_is_one_of(all);
    let outcome = first_failure(all);
    if outcome is Err {
        let i = choose|i: int| 0 <= i < all.len() && all[i] == outcome;
        assert(!(all[i]->Err_0 is NotEnoughTrust)) by {
            if i == 3 {
                lemma_first_failure_of_two(
                    check_commit_length(untrusted.signed_header, untrusted.validators),
                    check_commit_signers(untrusted.signed_header, untrusted.validators),
                );
            }
        }
    }
}

/// The first failure of a list of checks is one of the checks.
pub proof fn lemma_first_failure_is_one_of(checks: Seq<Result<(), VerificationErrorView>>)
    ensures
        first_failure(checks) is Err ==> exists|i: int|
            0 <= i < checks.len() && #[trigger] checks[i] == first_failure(checks),
    decreases checks.len(),
{
    if checks.len() > 0 {
        if checks[0] is Err {
            assert(checks[0] == first_failure(checks));
        } else {
            let rest = checks.drop_first();
            lemma_first_failure_is_one_of(rest);
            if first_failure(rest) is Err {
                let i = choose|i: int| 0 <= i < rest.len() && #[trigger] rest[i] == first_failure(rest);
                assert(checks[i + 1] == first_failure(checks));
            }
        }
    }
}

/// Entry `k` of the commit is absent, or it is signed by the validator in
/// place `k` with a signature that verifies under that validator's key.
pub open spec fn signed_in_place<S: SignatureVerifier>(
    scheme: S,
    signed_header: SignedHeaderView,
    vals: Seq<Validator>,
    k: int,
) -> bool {
    match vote_at(signed_header.commit, k) {
        None => true,
        Some(vote) => vote.validator_address == vals[k].address && scheme.accepts(
            vals[k].pubkey,
            sign_bytes(signed_header.header.chain_id, vote),
            vote.signature,
        ),
    }
}

/// A block that follows the trusted block directly is verified with
/// success where it holds together and enough of its validators signed it.
/// That is: its validators are the ones that the trusted header announced;
/// its validator sets hash to what its header announces, and its commit is
/// for its header; the trusted block has not expired, and the block is
/// dated after it and not in the future; its validators have addresses of
/// their own; its commit has one entry per validator, each absent or well
/// signed by the validator in its place; and the validators that signed for
/// the block hold more than two thirds of the voting power.
pub proof fn law_well_signed_adjacent_block_succeeds<S: SignatureVerifier, H: Hasher>(
    calculator: ProdVotingPowerCalculator<S>,
    hasher: H,
    trusted: LightBlockView,
    untrusted: LightBlockView,
    options: Options,
    now: Time,
)
    requires
        adjacent(untrusted, trusted),
        untrusted.signed_header.header.validators_hash
            == trusted.signed_header.header.next_validators_hash,
        hasher.validator_set_digest(untrusted.validators)
            == untrusted.signed_header.header.validators_hash,
        hasher.validator_set_digest(untrusted.next_validators)
            == untrusted.signed_header.header.next_validators_hash,
        hasher.header_digest(untrusted.signed_header.header)
            == untrusted.signed_header.commit.block_id.hash,
        trusted.signed_header.header.time.0 + options.trusting_period.0 > now.0,
        untrusted.signed_header.header.time.0 < now.0 + options.clock_drift.0,
        untrusted.signed_header.header.time.0 > trusted.signed_header.header.time.0,
        total_power(untrusted.validators) <= u64::MAX,
        forall|i: int, j: int|
            0 <= i < j < untrusted.validators.len() ==> untrusted.validators[i].address
                != untrusted.validators[j].address,
        untrusted.signed_header.commit.signatures.len() == untrusted.validators.len(),
        forall|k: int|
            0 <= k < untrusted.validators.len() ==> signed_in_place(
                calculator.scheme,
                untrusted.signed_header,
                untrusted.validators,
                k,
            ),
        more_than_two_thirds(
            tallied_power(
                untrusted.signed_header.commit.signatures,
                untrusted.validators,
                untrusted.validators.len() as int,
            ),
            total_power(untrusted.validators),
        ),
    ensures
        verdict_of(verification(calculator, hasher, trusted, untrusted, options, now)) is Success,
{
    let signed_header = untrusted.signed_header;
    let entries = signed_header.commit.signatures;
    let vals = untrusted.validators;
    let scheme = calculator.scheme;
    // Every validator is found in its own place.
    assert forall|k: int| 0 <= k < vals.len() implies position_of(vals, (#[trigger] vals[k]).address)
        == Some(k) by {
        assert(first_at(vals, vals[k].address, k));
        lemma_position_of(vals, vals[k].address);
        lemma_first_at_unique(vals, vals[k].address, k, position_of(vals, vals[k].address)->0);
    }
    assert forall|k: int|
        #![trigger stray_or_repeated(entries, vals, k)]
        #![trigger fails_at(scheme, signed_header, vals, k)]
        0 <= k < entries.len() implies !stray_or_repeated(entries, vals, k) && !fails_at(
        scheme,
        signed_header,
        vals,
        k,
    ) by {
        assert(signed_in_place(scheme, signed_header, vals, k));
        if entries[k].signer() is Some {
            assert(entries[k].signer() == Some(vals[k].address));
            assert(position_of(vals, vals[k].address) == Some(k));
            assert(lookup(vals, vals[k].address) == Some(vals[k]));
            if repeats_signer(entries, k) {
                let j = choose|j: int|
                    0 <= j < k && (#[trigger] entries[j]).signer() == entries[k].signer();
                assert(signed_in_place(scheme, signed_header, vals, j));
                assert(vals[j].address == vals[k].address);
            }
        }
    }
    assert(check_commit_signers(signed_header, vals) is Ok) by {
        if exists|k: int| first_stray_or_repeated(entries, vals, k) {
            let k = choose|k: int| first_stray_or_repeated(entries, vals, k);
            assert(!stray_or_repeated(entries, vals, k));
        }
    }
    lemma_first_failure_of_two(
        check_commit_length(signed_header, vals),
        check_commit_signers(signed_header, vals),
    );
    let tally = voting_power(scheme, signed_header, vals, TrustThreshold::fraction(2, 3));
    assert(tally is Ok) by {
        if exists|k: int| first_failure_at(scheme, signed_header, vals, k) {
            let k = choose|k: int| first_failure_at(scheme, signed_header, vals, k);
            assert(!fails_at(scheme, signed_header, vals, k));
        }
    }
    assert forall|k: int| 0 <= k < entries.len() implies !repeats_signer(entries, k) by {
        assert(!fails_at(scheme, signed_header, vals, k));
    }
    lemma_tallied_power_bounded(entries, vals, entries.len() as int);
    let all = own_checks(hasher, untrusted) + time_checks(trusted, untrusted, options, now) + seq![
        trust_check(calculator, hasher, trusted, untrusted, options),
        overlap_check(calculator, untrusted),
    ];
    assert(all[0] is Ok);
    assert(all[1] is Ok);
    assert(all[2] is Ok);
    assert(all[3] is Ok);
    assert(all[4] is Ok);
    assert(all[5] is Ok);
    assert(all[6] is Ok);
    assert(all[7] is Ok);
    assert(all[8] is Ok);
    assert(all[9] is Ok);
    lemma_first_failure_is_ok(all);
}

} // verus!
