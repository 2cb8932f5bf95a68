//! Tally of the voting power that signed a commit, against a validator set.

use crate::light_client::errors::{tally_view, check_view, VerificationError, VerificationErrorView};
use crate::light_client::signature::SignatureVerifier;
use crate::light_client::types::{
    lemma_position_of, lookup, more_than_two_thirds, position_of, total_power, exceeds_two_thirds,
    Address, Commit, CommitSig, CommitView, SignedHeader, SignedHeaderView, TrustThreshold,
    Validator, ValidatorSet,
};
use crate::light_client::vote::{sign_bytes, Vote, VoteType};
use crate::text::{decimal, decimal_text};
use vstd::prelude::*;

verus! {

/// How much voting power signed a commit, out of how much.
#[derive(Clone, Copy, Debug, PartialEq, Eq)]
pub struct VotingPowerTally {
    /// Total voting power of the validator set.
    pub total: u64,
    /// Voting power of the validators in the set that signed for the block.
    pub tallied: u64,
    /// Threshold that the tally was taken for.
    pub trust_threshold: TrustThreshold,
}

impl VotingPowerTally {
    /// The tally in words.
    pub open spec fn text(self) -> Seq<char> {
        "VotingPower(total="@ + decimal_text(self.total as nat) + " tallied="@ + decimal_text(
            self.tallied as nat,
        ) + " trust_threshold="@ + decimal_text(self.trust_threshold.num()) + "/"@ + decimal_text(
            self.trust_threshold.den(),
        ) + ")"@
    }

    /// Writes the tally in words.
    pub fn to_text(&self) -> (text: String)
        ensures
            text@ == self.text(),
    {
        let mut text = String::from_str("VotingPower(total=");
        text.append(decimal(self.total).as_str());
        text.append(" tallied=");
        text.append(decimal(self.tallied).as_str());
        text.append(" trust_threshold=");
        text.append(decimal(self.trust_threshold.numerator()).as_str());
        text.append("/");
        text.append(decimal(self.trust_threshold.denominator()).as_str());
        text.append(")");
        text
    }
}

/// The precommit that a commit entry stands for: none for an absent entry,
/// a vote for the commit's block for `Commit`, a vote for nil for `Nil`.
pub open spec fn cast_vote(entry: CommitSig, validator_index: u64, commit: CommitView) -> Option<
    Vote,
> {
    match entry {
        CommitSig::Absent => None,
        CommitSig::Commit { validator_address, timestamp, signature } => Some(
            Vote {
                vote_type: VoteType::Precommit,
                height: commit.height,
                round: commit.round,
                block_id: Some(commit.block_id),
                timestamp: Some(timestamp),
                validator_address,
                validator_index,
                signature,
            },
        ),
        CommitSig::Nil { validator_address, timestamp, signature } => Some(
            Vote {
                vote_type: VoteType::Precommit,
                height: commit.height,
                round: commit.round,
                block_id: None,
                timestamp: Some(timestamp),
                validator_address,
                validator_index,
                signature,
            },
        ),
    }
}

/// The precommit that entry `k` of the commit stands for.
pub open spec fn vote_at(commit: CommitView, k: int) -> Option<Vote> {
    cast_vote(commit.signatures[k], k as u64, commit)
}

/// Entry `k` is signed by an address that an earlier entry is signed by.
pub open spec fn repeats_signer(entries: Seq<CommitSig>, k: int) -> bool {
    &&& entries[k].signer() is Some
    &&& exists|j: int| 0 <= j < k && (#[trigger] entries[j]).signer() == entries[k].signer()
}

/// Entry `k` is signed by a validator of `vals`, and the signature does not
/// verify under that validator's key.
pub open spec fn bad_signature_at<S: SignatureVerifier>(
    scheme: S,
    signed_header: SignedHeaderView,
    vals: Seq<Validator>,
    k: int,
) -> bool {
    match vote_at(signed_header.commit, k) {
        Some(vote) => match lookup(vals, vote.validator_address) {
            Some(validator) => !scheme.accepts(
                validator.pubkey,
                sign_bytes(signed_header.header.chain_id, vote),
                vote.signature,
            ),
            None => false,
        },
        None => false,
    }
}

/// The tally cannot go past entry `k`.
pub open spec fn fails_at<S: SignatureVerifier>(
    scheme: S,
    signed_header: SignedHeaderView,
    vals: Seq<Validator>,
    k: int,
) -> bool {
    repeats_signer(signed_header.commit.signatures, k) || bad_signature_at(
        scheme,
        signed_header,
        vals,
        k,
    )
}

/// Entry `k` is the first that the tally cannot go past.
pub open spec fn first_failure_at<S: SignatureVerifier>(
    scheme: S,
    signed_header: SignedHeaderView,
    vals: Seq<Validator>,
    k: int,
) -> bool {
    &&& 0 <= k < signed_header.commit.signatures.len()
    &&& fails_at(scheme, signed_header, vals, k)
    &&& forall|j: int| 0 <= j < k ==> !fails_at(scheme, signed_header, vals, j)
}

/// The error that the tally stops with at entry `k`: a repeated signer is
/// reported before a signature is looked at.
pub open spec fn failure_at(signed_header: SignedHeaderView, vals: Seq<Validator>, k: int)
    -> VerificationErrorView {
    let vote = vote_at(signed_header.commit, k)->0;
    if repeats_signer(signed_header.commit.signatures, k) {
        VerificationErrorView::DuplicateValidator(vote.validator_address)
    } else {
        VerificationErrorView::InvalidSignature {
            signature: vote.signature,
            validator: lookup(vals, vote.validator_address)->0,
            sign_bytes: sign_bytes(signed_header.header.chain_id, vote),
        }
    }
}

/// The voting power that entry `k` adds to the tally: that of its signer,
/// where the entry is for the block and the signer is in `vals`.
pub open spec fn power_at(entries: Seq<CommitSig>, vals: Seq<Validator>, k: int) -> nat {
    match entries[k] {
        CommitSig::Commit { validator_address, .. } => match lookup(vals, validator_address) {
            Some(validator) => validator.voting_power as nat,
            None => 0,
        },
        _ => 0,
    }
}

/// The voting power that the first `n` entries add to the tally.
pub open spec fn tallied_power(entries: Seq<CommitSig>, vals: Seq<Validator>, n: int) -> nat
    decreases n,
{
    if n <= 0 {
        0
    } else {
        tallied_power(entries, vals, n - 1) + power_at(entries, vals, n - 1)
    }
}

/// The tally of `signed_header`'s commit against `vals`. Entries are taken
/// in order. An absent entry is passed over. An entry whose signer already
/// signed an earlier entry stops the tally with `DuplicateValidator`. A
/// signer that is not in `vals` is passed over. A signature of a validator
/// of `vals` that does not verify stops the tally with `InvalidSignature`.
/// Otherwise the total is the power of `vals`, and the tallied power that
/// of the signers for the block.
pub open spec fn voting_power<S: SignatureVerifier>(
    scheme: S,
    signed_header: SignedHeaderView,
    vals: Seq<Validator>,
    trust_threshold: TrustThreshold,
) -> Result<VotingPowerTally, VerificationErrorView> {
    if exists|k: int| first_failure_at(scheme, signed_header, vals, k) {
        let k = choose|k: int| first_failure_at(scheme, signed_header, vals, k);
        Err(failure_at(signed_header, vals, k))
    } else {
        Ok(
            VotingPowerTally {
                total: total_power(vals) as u64,
                tallied: tallied_power(
                    signed_header.commit.signatures,
                    vals,
                    signed_header.commit.signatures.len() as int,
                ) as u64,
                trust_threshold,
            },
        )
    }
}

/// What `check_enough_trust` makes of a tally: the tally's error, or
/// `NotEnoughTrust` where the tally does not reach the threshold.
pub open spec fn enough_trust(
    tally: Result<VotingPowerTally, VerificationErrorView>,
    trust_threshold: TrustThreshold,
) -> Result<(), VerificationErrorView> {
    match tally {
        Err(e) => Err(e),
        Ok(t) => if trust_threshold.met_by(t.tallied as nat, t.total as nat) {
            Ok(())
        } else {
            Err(VerificationErrorView::NotEnoughTrust(t))
        },
    }
}

/// What `check_signers_overlap` makes of a tally: the tally's error, or
/// `InsufficientSignersOverlap` unless strictly more than two thirds signed.
pub open spec fn signers_overlap(tally: Result<VotingPowerTally, VerificationErrorView>) -> Result<
    (),
    VerificationErrorView,
> {
    match tally {
        Err(e) => Err(e),
        Ok(t) => if more_than_two_thirds(t.tallied as nat, t.total as nat) {
            Ok(())
        } else {
            Err(VerificationErrorView::InsufficientSignersOverlap(t))
        },
    }
}

/// Computes the voting power in a commit against a validator set.
pub trait VotingPowerCalculator {
    /// The tally that this calculator takes.
    spec fn tally(
        &self,
        signed_header: SignedHeaderView,
        vals: Seq<Validator>,
        trust_threshold: TrustThreshold,
    ) -> Result<VotingPowerTally, VerificationErrorView>;

    /// Total voting power of a validator set.
    fn total_power_of(&self, validator_set: &ValidatorSet) -> (total: u64)
        ensures
            total == total_power(validator_set@),
    {
        validator_set.total_power()
    }

    /// Checks that enough of the trusted validators signed the untrusted
    /// header for it to be trusted.
    fn check_enough_trust(
        &self,
        untrusted_header: &SignedHeader,
        trusted_validators: &ValidatorSet,
        trust_threshold: TrustThreshold,
    ) -> (outcome: Result<(), VerificationError>)
        ensures
            check_view(outcome) == enough_trust(
                self.tally(untrusted_header@, trusted_validators@, trust_threshold),
                trust_threshold,
            ),
    {
        match self.voting_power_in(untrusted_header, trusted_validators, trust_threshold) {
            Err(e) => Err(e),
            Ok(voting_power) => {
                if trust_threshold.is_enough_power(voting_power.tallied, voting_power.total) {
                    Ok(())
                } else {
                    Err(VerificationError::NotEnoughTrust(voting_power))
                }
            },
        }
    }

    /// Checks that strictly more than two thirds of the untrusted header's
    /// own validators signed it.
    fn check_signers_overlap(
        &self,
        untrusted_header: &SignedHeader,
        untrusted_validators: &ValidatorSet,
    ) -> (outcome: Result<(), VerificationError>)
        ensures
            check_view(outcome) == signers_overlap(
                self.tally(
                    untrusted_header@,
                    untrusted_validators@,
                    TrustThreshold::fraction(2, 3),
                ),
            ),
    {
        let trust_threshold = TrustThreshold::two_thirds();
        match self.voting_power_in(untrusted_header, untrusted_validators, trust_threshold) {
            Err(e) => Err(e),
            Ok(voting_power) => {
                if exceeds_two_thirds(voting_power.tallied, voting_power.total) {
                    Ok(())
                } else {
                    Err(VerificationError::InsufficientSignersOverlap(voting_power))
                }
            },
        }
    }

    /// Computes the voting power in a header and its commit against a
    /// validator set.
    fn voting_power_in(
        &self,
        signed_header: &SignedHeader,
        validator_set: &ValidatorSet,
        trust_threshold: TrustThreshold,
    ) -> (outcome: Result<VotingPowerTally, VerificationError>)
        ensures
            tally_view(outcome) == self.tally(signed_header@, validator_set@, trust_threshold),
    ;
}

/// The calculator that verifies every signature with the scheme it holds.
#[derive(Clone, Copy, Debug, Default)]
pub struct ProdVotingPowerCalculator<S: SignatureVerifier> {
    pub scheme: S,
}

/// The positions in `vals` of the signers for the block among the first `n`
/// entries.
pub open spec fn counted_positions(entries: Seq<CommitSig>, vals: Seq<Validator>, n: int) -> Set<
    int,
>
    decreases n,
{
    if n <= 0 {
        Set::empty()
    } else {
        let before = counted_positions(entries, vals, n - 1);
        match entries[n - 1] {
            CommitSig::Commit { validator_address, .. } => match position_of(
                vals,
                validator_address,
            ) {
                Some(i) => before.insert(i),
                None => before,
            },
            _ => before,
        }
    }
}

/// The voting power of the validators at the positions in `chosen`, among
/// the first `m` of `vals`.
pub open spec fn power_within(vals: Seq<Validator>, chosen: Set<int>, m: int) -> nat
    decreases m,
{
    if m <= 0 {
        0
    } else {
        power_within(vals, chosen, m - 1) + if chosen.contains(m - 1) {
            vals[m - 1].voting_power as nat
        } else {
            0
        }
    }
}

proof fn lemma_power_within_bounded(vals: Seq<Validator>, chosen: Set<int>, m: int)
    requires
        0 <= m <= vals.len(),
    ensures
        power_within(vals, chosen, m) <= total_power(vals.take(m)),
    decreases m,
{
    if m > 0 {
        lemma_power_within_bounded(vals, chosen, m - 1);
        assert(vals.take(m).drop_last() =~= vals.take(m - 1));
    }
}

proof fn lemma_power_within_insert(vals: Seq<Validator>, chosen: Set<int>, i: int, m: int)
    requires
        !chosen.contains(i),
        0 <= i,
        0 <= m,
    ensures
        power_within(vals, chosen.insert(i), m) == power_within(vals, chosen, m) + if i < m {
            vals[i].voting_power as nat
        } else {
            0
        },
    decreases m,
{
    if m > 0 {
        lemma_power_within_insert(vals, chosen, i, m - 1);
    }
}

proof fn lemma_power_within_none(vals: Seq<Validator>, m: int)
    ensures
        power_within(vals, Set::empty(), m) == 0,
    decreases m,
{
    if m > 0 {
        lemma_power_within_none(vals, m - 1);
    }
}

proof fn lemma_counted_position(entries: Seq<CommitSig>, vals: Seq<Validator>, n: int, i: int)
    requires
        0 <= n <= entries.len(),
        counted_positions(entries, vals, n).contains(i),
    ensures
        exists|j: int|
            0 <= j < n && (#[trigger] entries[j]).signer() is Some && position_of(
                vals,
                entries[j].signer()->0,
            ) == Some(i),
    decreases n,
{
    if n > 0 {
        let before = counted_positions(entries, vals, n - 1);
        if before.contains(i) {
            lemma_counted_position(entries, vals, n - 1, i);
            let j = choose|j: int|
                0 <= j < n - 1 && (#[trigger] entries[j]).signer() is Some && position_of(
                    vals,
                    entries[j].signer()->0,
                ) == Some(i);
            assert(0 <= j < n && entries[j].signer() is Some && position_of(
                vals,
                entries[j].signer()->0,
            ) == Some(i));
        } else {
            assert(entries[n - 1].signer() is Some && position_of(
                vals,
                entries[n - 1].signer()->0,
            ) == Some(i));
        }
    }
}

proof fn lemma_tallied_is_power_within(entries: Seq<CommitSig>, vals: Seq<Validator>, n: int)
    requires
        0 <= n <= entries.len(),
        forall|k: int| 0 <= k < n ==> !repeats_signer(entries, k),
    ensures
        tallied_power(entries, vals, n) == power_within(
            vals,
            counted_positions(entries, vals, n),
            vals.len() as int,
        ),
    decreases n,
{
    if n <= 0 {
        lemma_power_within_none(vals, vals.len() as int);
    } else {
        lemma_tallied_is_power_within(entries, vals, n - 1);
        let before = counted_positions(entries, vals, n - 1);
        match entries[n - 1] {
            CommitSig::Commit { validator_address, .. } => {
                lemma_position_of(vals, validator_address);
                match position_of(vals, validator_address) {
                    Some(i) => {
                        if before.contains(i) {
                            lemma_counted_position(entries, vals, n - 1, i);
                            let j = choose|j: int|
                                0 <= j < n - 1 && (#[trigger] entries[j]).signer() is Some
                                    && position_of(vals, entries[j].signer()->0) == Some(i);
                            lemma_position_of(vals, entries[j].signer()->0);
                            assert(entries[j].signer() == entries[n - 1].signer());
                            assert(repeats_signer(entries, n - 1));
                        }
                        lemma_power_within_insert(vals, before, i, vals.len() as int);
                    },
                    None => {},
                }
            },
            _ => {},
        }
    }
}

/// Where no signer signs twice among the first `n` entries, the power that
/// they add is at most the total power of the validators.
pub proof fn lemma_tallied_power_bounded(entries: Seq<CommitSig>, vals: Seq<Validator>, n: int)
    requires
        0 <= n <= entries.len(),
        forall|k: int| 0 <= k < n ==> !repeats_signer(entries, k),
    ensures
        tallied_power(entries, vals, n) <= total_power(vals),
{
    lemma_tallied_is_power_within(entries, vals, n);
    lemma_power_within_bounded(vals, counted_positions(entries, vals, n), vals.len() as int);
    assert(vals.take(vals.len() as int) =~= vals);
}

/// The first entry that the tally cannot go past is unique.
pub proof fn lemma_first_failure_unique<S: SignatureVerifier>(
    scheme: S,
    signed_header: SignedHeaderView,
    vals: Seq<Validator>,
    a: int,
    b: int,
)
    requires
        first_failure_at(scheme, signed_header, vals, a),
        first_failure_at(scheme, signed_header, vals, b),
    ensures
        a == b,
{
}

/// Tells whether one of the first `n` entries is signed by `address`.
pub fn signed_before(entries: &Vec<CommitSig>, n: usize, address: &Address) -> (found: bool)
    requires
        n <= entries@.len(),
    ensures
        found == exists|j: int| 0 <= j < n && (#[trigger] entries@[j]).signer() == Some(*address),
{
    let mut i: usize = 0;
    while i < n
        invariant
            i <= n <= entries@.len(),
            forall|j: int| 0 <= j < i ==> (#[trigger] entries@[j]).signer() != Some(*address),
        decreases n - i,
    {
        match entries[i].validator_address() {
            Some(signer) => {
                if signer.matches(address) {
                    return true;
                }
            },
            None => {},
        }
        i += 1;
    }
    false
}

impl<S: SignatureVerifier> ProdVotingPowerCalculator<S> {
    /// A calculator that verifies signatures with `scheme`.
    pub fn new(scheme: S) -> (calculator: Self)
        ensures
            calculator.scheme == scheme,
    {
        ProdVotingPowerCalculator { scheme }
    }
}

impl<S: SignatureVerifier> VotingPowerCalculator for ProdVotingPowerCalculator<S> {
    open spec fn tally(
        &self,
        signed_header: SignedHeaderView,
        vals: Seq<Validator>,
        trust_threshold: TrustThreshold,
    ) -> Result<VotingPowerTally, VerificationErrorView> {
        voting_power(self.scheme, signed_header, vals, trust_threshold)
    }

    fn voting_power_in(
        &self,
        signed_header: &SignedHeader,
        validator_set: &ValidatorSet,
        trust_threshold: TrustThreshold,
    ) -> (outcome: Result<VotingPowerTally, VerificationError>)
        ensures
            outcome matches Ok(t) ==> t.total == total_power(validator_set@) && t.tallied
                <= t.total,
    {
        let signatures = &signed_header.commit.signatures;
        let total: u64 = self.total_power_of(validator_set);
        let ghost entries = signed_header@.commit.signatures;
        let ghost vals = validator_set@;

        let mut tallied_voting_power: u64 = 0;
        let mut idx: usize = 0;
        while idx < signatures.len()
            invariant
                idx <= signatures.len(),
                entries == signed_header@.commit.signatures,
                entries == signatures@,
                vals == validator_set@,
                total == total_power(vals),
                forall|j: int| 0 <= j < idx ==> !fails_at(self.scheme, signed_header@, vals, j),
                tallied_voting_power == tallied_power(entries, vals, idx as int),
            decreases signatures.len() - idx,
        {
            match non_absent_vote(&signatures[idx], idx as u64, &signed_header.commit) {
                None => {},
                Some(vote) => {
                    // Ensure we only count a validator's power once
                    if signed_before(signatures, idx, &vote.validator_address) {
                        proof {
                            assert(repeats_signer(entries, idx as int));
                            assert(first_failure_at(self.scheme, signed_header@, vals, idx as int));
                            lemma_first_failure_unique(
                                self.scheme,
                                signed_header@,
                                vals,
                                idx as int,
                                choose|k: int|
                                    first_failure_at(self.scheme, signed_header@, vals, k),
                            );
                        }
                        return Err(VerificationError::DuplicateValidator(vote.validator_address));
                    }
                    assert(!repeats_signer(entries, idx as int));

                    match validator_set.validator(&vote.validator_address) {
                        // Cannot find matching validator, so we skip the vote
                        None => {},
                        Some(validator) => {
                            let sign_bytes = vote.sign_bytes(&signed_header.header.chain_id);
                            // Check vote is valid
                            if !self.scheme.verify(
                                &validator.pubkey,
                                sign_bytes.as_slice(),
                                &vote.signature,
                            ) {
                                proof {
                                    assert(bad_signature_at(
                                        self.scheme,
                                        signed_header@,
                                        vals,
                                        idx as int,
                                    ));
                                    assert(first_failure_at(
                                        self.scheme,
                                        signed_header@,
                                        vals,
                                        idx as int,
                                    ));
                                    lemma_first_failure_unique(
                                        self.scheme,
                                        signed_header@,
                                        vals,
                                        idx as int,
                                        choose|k: int|
                                            first_failure_at(self.scheme, signed_header@, vals, k),
                                    );
                                }
                                return Err(
                                    VerificationError::InvalidSignature {
                                        signature: vote.signature,
                                        validator,
                                        sign_bytes,
                                    },
                                );
                            }
                            // If the vote is neither absent nor nil, tally its power
                            if signatures[idx].is_commit() {
                                proof {
                                    assert forall|k: int| 0 <= k < idx + 1 implies !repeats_signer(
                                        entries,
                                        k,
                                    ) by {
                                        if k < idx {
                                            assert(!fails_at(self.scheme, signed_header@, vals, k));
                                        }
                                    }
                                    lemma_tallied_power_bounded(entries, vals, idx + 1);
                                }
                                tallied_voting_power = tallied_voting_power
                                    + validator.voting_power;
                            }
                        },
                    }
                },
            }
            assert(!fails_at(self.scheme, signed_header@, vals, idx as int));
            idx += 1;
        }

        proof {
            assert forall|k: int| !first_failure_at(self.scheme, signed_header@, vals, k) by {}
            assert forall|k: int| 0 <= k < entries.len() implies !repeats_signer(entries, k) by {
                assert(!fails_at(self.scheme, signed_header@, vals, k));
            }
            lemma_tallied_power_bounded(entries, vals, entries.len() as int);
        }
        Ok(VotingPowerTally { total, tallied: tallied_voting_power, trust_threshold })
    }
}

/// The precommit that a commit entry stands for, if it is not absent.
pub fn non_absent_vote(commit_sig: &CommitSig, validator_index: u64, commit: &Commit) -> (vote:
    Option<Vote>)
    ensures
        vote == cast_vote(*commit_sig, validator_index, commit@),
{
    let (validator_address, timestamp, signature, block_id) = match commit_sig {
        CommitSig::Absent => {
            return None;
        },
        CommitSig::Commit { validator_address, timestamp, signature } => (
            *validator_address,
            *timestamp,
            *signature,
            Some(commit.block_id),
        ),
        CommitSig::Nil { validator_address, timestamp, signature } => (
            *validator_address,
            *timestamp,
            *signature,
            None,
        ),
    };

    Some(
        Vote {
            vote_type: VoteType::Precommit,
            height: commit.height,
            round: commit.round,
            block_id,
            timestamp: Some(timestamp),
            validator_address,
            validator_index,
            signature,
        },
    )
}

} // verus!
