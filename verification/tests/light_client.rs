use std::cell::{Cell, RefCell};
use std::collections::HashMap;

use tendermint_light_client::light_client::client::{
    expiry_at, keep_fetched, settle, LightClient,
};
use tendermint_light_client::light_client::commit_validator::{CommitValidator, ProdCommitValidator};
use tendermint_light_client::light_client::errors::{
    CommitFault, Error, IoError, VerificationError,
};
use tendermint_light_client::light_client::fork_detector::{
    examine_witness, judge, Evidence, WitnessReport,
};
use tendermint_light_client::light_client::hasher::Hasher;
use tendermint_light_client::light_client::io::{
    fetch_with_retries, AtHeight, Exchanges, Io,
};
use tendermint_light_client::light_client::predicates::{
    verify, ProdPredicates, VerificationPredicates,
};
use tendermint_light_client::light_client::scheduler::{midpoint, schedule, Step};
use tendermint_light_client::light_client::signature::SignatureVerifier;
use tendermint_light_client::light_client::store::{LightStore, MemoryStore};
use tendermint_light_client::light_client::supervisor::{
    event_of, fate_of, EvidenceReporter, Fate, PeerEvent, PeerState, PeerStatus, Submissions,
    Supervisor,
};
use tendermint_light_client::light_client::types::{
    bytes_match, exceeds_two_thirds, Address, BlockId, Commit, CommitSig, Digest, Duration, Header,
    HeaderView, LightBlock, LightBlockView, Options, PeerId, PublicKey, Signature, SignedHeader,
    Status, Time, TrustThreshold, Validator, ValidatorSet,
};
use tendermint_light_client::light_client::verdict::{
    Clock, ProdVerifier, Verdict, VerdictView, Verifier,
};
use tendermint_light_client::light_client::vote::{Vote, VoteType};
use tendermint_light_client::light_client::voting_power::{
    non_absent_vote, signed_before, ProdVotingPowerCalculator, VotingPowerCalculator,
    VotingPowerTally,
};

// A toy hash and a toy signature scheme: enough to build blocks that hold
// together, and blocks that do not.

fn mix(parts: &[&[u8]]) -> [u8; 32] {
    let mut state: u64 = 0xcbf2_9ce4_8422_2325;
    for part in parts {
        for byte in part.iter() {
            state ^= *byte as u64;
            state = state.wrapping_mul(0x0000_0100_0000_01b3);
        }
        state ^= 0xff;
        state = state.wrapping_mul(0x0000_0100_0000_01b3);
    }
    let mut out = [0u8; 32];
    for i in 0..32 {
        state = state.wrapping_mul(0x0000_0100_0000_01b3) ^ (i as u64);
        out[i] = (state >> 24) as u8;
    }
    out
}

fn toy_signature(pubkey: &PublicKey, msg: &[u8]) -> Signature {
    let tag = mix(&[&pubkey.bytes, msg]);
    let mut bytes = [0u8; 64];
    bytes[..32].copy_from_slice(&tag);
    bytes[32..].copy_from_slice(&pubkey.bytes);
    Signature { bytes }
}

#[derive(Clone, Copy, Debug, Default, PartialEq)]
struct ToyScheme;

impl SignatureVerifier for ToyScheme {
    fn accepts(&self, _pubkey: PublicKey, _msg: vstd::seq::Seq<u8>, _signature: Signature) -> bool {
        unreachable!()
    }

    fn verify(&self, pubkey: &PublicKey, msg: &[u8], signature: &Signature) -> bool {
        toy_signature(pubkey, msg) == *signature
    }
}

#[derive(Clone, Copy, Debug, Default, PartialEq)]
struct ToyHasher;

fn header_hash(header: &Header) -> Digest {
    Digest::new(mix(&[
        &header.chain_id,
        &header.height.to_le_bytes(),
        &header.time.0.to_le_bytes(),
        &header.last_commit_hash.bytes,
        &header.validators_hash.bytes,
        &header.next_validators_hash.bytes,
        &header.app_hash.bytes,
    ]))
}

fn validators_hash(set: &ValidatorSet) -> Digest {
    let mut flat: Vec<u8> = Vec::new();
    for v in set.validators() {
        flat.extend_from_slice(&v.address.bytes);
        flat.extend_from_slice(&v.voting_power.to_le_bytes());
        flat.extend_from_slice(&v.pubkey.bytes);
    }
    Digest::new(mix(&[&flat]))
}

impl Hasher for ToyHasher {
    fn header_digest(&self, _header: HeaderView) -> Digest {
        unreachable!()
    }

    fn validator_set_digest(&self, _vals: vstd::seq::Seq<Validator>) -> Digest {
        unreachable!()
    }

    fn hash_header(&self, header: &Header) -> Digest {
        header_hash(header)
    }

    fn hash_validator_set(&self, validator_set: &ValidatorSet) -> Digest {
        validators_hash(validator_set)
    }
}

#[derive(Clone, Copy, Debug, PartialEq)]
struct FixedClock(Time);

impl Default for FixedClock {
    fn default() -> Self {
        FixedClock(Time(12 * SECOND))
    }
}

impl Clock for FixedClock {
    fn now(&self) -> Time {
        self.0
    }
}

const CHAIN: &[u8] = b"test-chain";
const SECOND: u64 = 1_000_000_000;

fn validator(id: u8, power: u64) -> Validator {
    Validator {
        address: Address::new([id; 20]),
        voting_power: power,
        pubkey: PublicKey { bytes: [id; 32] },
    }
}

fn set_of(members: &[(u8, u64)]) -> ValidatorSet {
    ValidatorSet::new(members.iter().map(|(id, power)| validator(*id, *power)).collect()).unwrap()
}

fn time_at(height: u64) -> Time {
    Time(height * SECOND)
}

/// How a validator votes in a commit.
#[derive(Clone, Copy, PartialEq)]
enum Cast {
    Absent,
    Commit(u8),
    Nil(u8),
    /// A vote for the block whose signature is spoilt.
    Forged(u8),
    /// A vote for nil whose signature is spoilt.
    ForgedNil(u8),
}

fn entry(cast: Cast, index: usize, commit: &Commit) -> CommitSig {
    let (id, nil, spoilt) = match cast {
        Cast::Absent => return CommitSig::Absent,
        Cast::Commit(id) => (id, false, false),
        Cast::Nil(id) => (id, true, false),
        Cast::Forged(id) => (id, false, true),
        Cast::ForgedNil(id) => (id, true, true),
    };
    let timestamp = time_at(commit.height);
    let vote = Vote {
        vote_type: VoteType::Precommit,
        height: commit.height,
        round: commit.round,
        block_id: if nil { None } else { Some(commit.block_id) },
        timestamp: Some(timestamp),
        validator_address: Address::new([id; 20]),
        validator_index: index as u64,
        signature: Signature { bytes: [0; 64] },
    };
    let mut signature = toy_signature(&PublicKey { bytes: [id; 32] }, &vote.sign_bytes(&CHAIN.to_vec()));
    if spoilt {
        signature.bytes[0] ^= 1;
    }
    let validator_address = Address::new([id; 20]);
    if nil {
        CommitSig::Nil { validator_address, timestamp, signature }
    } else {
        CommitSig::Commit { validator_address, timestamp, signature }
    }
}

fn signed_header(height: u64, vals: &ValidatorSet, next_vals: &ValidatorSet, casts: &[Cast]) -> SignedHeader {
    let header = Header {
        chain_id: CHAIN.to_vec(),
        height,
        time: time_at(height),
        last_commit_hash: Digest::new([7; 32]),
        validators_hash: validators_hash(vals),
        next_validators_hash: validators_hash(next_vals),
        app_hash: Digest::new([9; 32]),
    };
    let mut commit = Commit {
        height,
        round: 1,
        block_id: BlockId { hash: header_hash(&header) },
        signatures: Vec::new(),
    };
    let signatures = casts.iter().enumerate().map(|(i, cast)| entry(*cast, i, &commit)).collect();
    commit.signatures = signatures;
    SignedHeader { header, commit }
}

fn block(height: u64, vals: &[(u8, u64)], next_vals: &[(u8, u64)], casts: &[Cast]) -> LightBlock {
    let validators = set_of(vals);
    let next_validators = set_of(next_vals);
    LightBlock::new(
        signed_header(height, &validators, &next_validators, casts),
        validators,
        next_validators,
        PeerId::new([1; 20]),
    )
}

/// A block that all of its own validators signed.
fn full_block(height: u64, vals: &[(u8, u64)], next_vals: &[(u8, u64)]) -> LightBlock {
    let casts: Vec<Cast> = vals.iter().map(|(id, _)| Cast::Commit(*id)).collect();
    block(height, vals, next_vals, &casts)
}

fn options() -> Options {
    Options {
        trust_threshold: TrustThreshold::one_third(),
        trusting_period: Duration(1_000 * SECOND),
        clock_drift: Duration(5 * SECOND),
    }
}

fn calculator() -> ProdVotingPowerCalculator<ToyScheme> {
    ProdVotingPowerCalculator::new(ToyScheme)
}

type ToyVerifier = ProdVerifier<
    ProdPredicates,
    ProdVotingPowerCalculator<ToyScheme>,
    ProdCommitValidator,
    ToyHasher,
    FixedClock,
>;

fn toy_verifier(now: Time) -> ToyVerifier {
    ProdVerifier::new(ProdPredicates, calculator(), ProdCommitValidator, ToyHasher, FixedClock(now))
}

const FOUR: [(u8, u64); 4] = [(1, 10), (2, 20), (3, 30), (4, 40)];

fn tally_of(casts: &[Cast], vals: &[(u8, u64)]) -> Result<VotingPowerTally, VerificationError> {
    let set = set_of(vals);
    let header = signed_header(5, &set, &set, casts);
    calculator().voting_power_in(&header, &set, TrustThreshold::one_third())
}

// ---------------------------------------------------------------- types

#[test]
fn bytes_match_compares_every_byte() {
    assert!(bytes_match(&[1u8, 2, 3], &[1u8, 2, 3]));
    assert!(!bytes_match(&[1u8, 2, 3], &[1u8, 2, 4]));
    assert!(Digest::new([5; 32]).matches(&Digest::new([5; 32])));
    let mut other = [5u8; 32];
    other[31] = 6;
    assert!(!Digest::new([5; 32]).matches(&Digest::new(other)));
    assert!(Address::new([5; 20]).matches(&Address::new([5; 20])));
    assert!(!PeerId::new([5; 20]).matches(&PeerId::new([6; 20])));
}

#[test]
fn validator_set_totals_and_finds() {
    let set = set_of(&FOUR);
    assert_eq!(set.len(), 4);
    assert_eq!(set.total_power(), 100);
    assert_eq!(set.validator(&Address::new([3; 20])), Some(validator(3, 30)));
    assert_eq!(set.position(&Address::new([3; 20])), Some(2));
    assert_eq!(set.validator(&Address::new([9; 20])), None);
    assert_eq!(set.clone(), set);
}

#[test]
fn validator_set_finds_the_first_of_two_with_one_address() {
    let set = ValidatorSet::new(vec![validator(1, 10), validator(1, 99)]).unwrap();
    assert_eq!(set.validator(&Address::new([1; 20])), Some(validator(1, 10)));
    assert_eq!(set.total_power(), 109);
}

#[test]
fn validator_set_refuses_power_beyond_64_bits() {
    assert!(ValidatorSet::new(vec![validator(1, u64::MAX), validator(2, 1)]).is_none());
    assert!(ValidatorSet::new(vec![validator(1, u64::MAX - 1), validator(2, 1)]).is_some());
    assert_eq!(ValidatorSet::new(Vec::new()).unwrap().total_power(), 0);
}

#[test]
fn trust_threshold_lies_between_one_third_and_one() {
    assert!(TrustThreshold::new(1, 3).is_some());
    assert!(TrustThreshold::new(2, 3).is_some());
    assert!(TrustThreshold::new(1, 1).is_some());
    assert!(TrustThreshold::new(1, 4).is_none());
    assert!(TrustThreshold::new(4, 3).is_none());
    assert!(TrustThreshold::new(0, 0).is_none());
    assert!(TrustThreshold::new(1, 0).is_none());
    assert_eq!(TrustThreshold::new(1, 3), Some(TrustThreshold::one_third()));
    assert_eq!(TrustThreshold::default(), TrustThreshold::one_third());
    assert_eq!(TrustThreshold::two_thirds().numerator(), 2);
    assert_eq!(TrustThreshold::two_thirds().denominator(), 3);
}

#[test]
fn threshold_is_met_at_the_exact_share_and_never_by_nothing() {
    let third = TrustThreshold::one_third();
    assert!(third.is_enough_power(1, 3));
    assert!(third.is_enough_power(34, 100));
    assert!(!third.is_enough_power(33, 100));
    assert!(!third.is_enough_power(0, 0));
    assert!(third.is_enough_power(u64::MAX, u64::MAX));
    assert!(!third.is_enough_power(u64::MAX / 3 - 1, u64::MAX));
}

#[test]
fn two_thirds_must_be_exceeded() {
    assert!(!exceeds_two_thirds(2, 3));
    assert!(exceeds_two_thirds(3, 3));
    assert!(!exceeds_two_thirds(66, 100));
    assert!(exceeds_two_thirds(67, 100));
    assert!(!exceeds_two_thirds(0, 0));
    assert!(exceeds_two_thirds(u64::MAX, u64::MAX));
}

#[test]
fn status_moves_forward_only() {
    assert!(Status::Unverified.can_become(Status::Verified));
    assert!(Status::Unverified.can_become(Status::Failed));
    assert!(Status::Verified.can_become(Status::Trusted));
    assert!(Status::Verified.can_become(Status::Failed));
    assert!(!Status::Verified.can_become(Status::Unverified));
    assert!(Status::Trusted.can_become(Status::Trusted));
    assert!(!Status::Trusted.can_become(Status::Verified));
    assert!(!Status::Trusted.can_become(Status::Unverified));
    assert!(!Status::Trusted.can_become(Status::Failed));
    assert!(!Status::Failed.can_become(Status::Verified));
}

#[test]
fn commit_sig_tells_its_kind_and_signer() {
    let set = set_of(&FOUR);
    let header = signed_header(5, &set, &set, &[Cast::Absent, Cast::Commit(2), Cast::Nil(3)]);
    let sigs = &header.commit.signatures;
    assert!(sigs[0].is_absent() && !sigs[0].is_commit() && !sigs[0].is_nil());
    assert!(sigs[1].is_commit() && !sigs[1].is_absent());
    assert!(sigs[2].is_nil() && !sigs[2].is_commit());
    assert_eq!(sigs[0].validator_address(), None);
    assert_eq!(sigs[1].validator_address(), Some(Address::new([2; 20])));
    assert_eq!(sigs[2].validator_address(), Some(Address::new([3; 20])));
}

// ---------------------------------------------------------------- votes

#[test]
fn sign_bytes_are_tag_height_round_block_time_chain() {
    let vote = Vote {
        vote_type: VoteType::Precommit,
        height: 0x0102,
        round: 3,
        block_id: Some(BlockId { hash: Digest::new([0xab; 32]) }),
        timestamp: Some(Time(0x0a0b)),
        validator_address: Address::new([1; 20]),
        validator_index: 0,
        signature: Signature { bytes: [0; 64] },
    };
    let mut expected: Vec<u8> = vec![2];
    expected.extend_from_slice(&[0x02, 0x01, 0, 0, 0, 0, 0, 0]);
    expected.extend_from_slice(&[3, 0, 0, 0]);
    expected.extend_from_slice(&[0xab; 32]);
    expected.extend_from_slice(&[0x0b, 0x0a, 0, 0, 0, 0, 0, 0]);
    expected.extend_from_slice(b"xy");
    assert_eq!(vote.sign_bytes(&b"xy".to_vec()), expected);
}

#[test]
fn sign_bytes_of_a_vote_for_nil_hold_no_block() {
    let vote = Vote {
        vote_type: VoteType::Prevote,
        height: 1,
        round: 0,
        block_id: None,
        timestamp: None,
        validator_address: Address::new([1; 20]),
        validator_index: 0,
        signature: Signature { bytes: [0; 64] },
    };
    assert_eq!(vote.sign_bytes(&Vec::new()), vec![1u8, 1, 0, 0, 0, 0, 0, 0, 0, 0, 0, 0, 0]);
}

#[test]
fn non_absent_vote_builds_the_precommit() {
    let set = set_of(&FOUR);
    let header = signed_header(5, &set, &set, &[Cast::Absent, Cast::Commit(2), Cast::Nil(3)]);
    let commit = &header.commit;
    assert_eq!(non_absent_vote(&commit.signatures[0], 0, commit), None);
    let vote = non_absent_vote(&commit.signatures[1], 1, commit).unwrap();
    assert_eq!(vote.vote_type, VoteType::Precommit);
    assert_eq!(vote.height, 5);
    assert_eq!(vote.round, 1);
    assert_eq!(vote.block_id, Some(commit.block_id));
    assert_eq!(vote.timestamp, Some(time_at(5)));
    assert_eq!(vote.validator_address, Address::new([2; 20]));
    assert_eq!(vote.validator_index, 1);
    let nil = non_absent_vote(&commit.signatures[2], 2, commit).unwrap();
    assert_eq!(nil.block_id, None);
    assert_eq!(nil.validator_index, 2);
}

#[test]
fn signed_before_looks_at_earlier_entries_only() {
    let set = set_of(&FOUR);
    let header = signed_header(5, &set, &set, &[Cast::Commit(1), Cast::Absent, Cast::Nil(3)]);
    let sigs = &header.commit.signatures;
    assert!(signed_before(sigs, 3, &Address::new([1; 20])));
    assert!(signed_before(sigs, 3, &Address::new([3; 20])));
    assert!(!signed_before(sigs, 2, &Address::new([3; 20])));
    assert!(!signed_before(sigs, 0, &Address::new([1; 20])));
    assert!(!signed_before(sigs, 3, &Address::new([2; 20])));
}

// ---------------------------------------------------------------- tally

#[test]
fn tally_counts_the_signers_for_the_block() {
    let tally = tally_of(
        &[Cast::Commit(1), Cast::Commit(2), Cast::Absent, Cast::Commit(4)],
        &FOUR,
    )
    .unwrap();
    assert_eq!(tally.total, 100);
    assert_eq!(tally.tallied, 70);
    assert_eq!(tally.trust_threshold, TrustThreshold::one_third());
}

#[test]
fn tally_never_exceeds_the_total() {
    let all = tally_of(
        &[Cast::Commit(1), Cast::Commit(2), Cast::Commit(3), Cast::Commit(4)],
        &FOUR,
    )
    .unwrap();
    assert_eq!((all.tallied, all.total), (100, 100));
    let none = tally_of(&[Cast::Absent, Cast::Absent, Cast::Absent, Cast::Absent], &FOUR).unwrap();
    assert_eq!((none.tallied, none.total), (0, 100));
    let big = [(1, u64::MAX - 1), (2, 1)];
    let huge = tally_of(&[Cast::Commit(1), Cast::Commit(2)], &big).unwrap();
    assert_eq!((huge.tallied, huge.total), (u64::MAX, u64::MAX));
}

#[test]
fn tally_of_an_empty_commit_against_an_empty_set_is_nothing() {
    let tally = tally_of(&[], &[]).unwrap();
    assert_eq!((tally.tallied, tally.total), (0, 0));
}

#[test]
fn nil_signature_adds_no_power() {
    let with_nil =
        tally_of(&[Cast::Commit(1), Cast::Nil(2), Cast::Commit(3), Cast::Absent], &FOUR).unwrap();
    let with_absent =
        tally_of(&[Cast::Commit(1), Cast::Absent, Cast::Commit(3), Cast::Absent], &FOUR).unwrap();
    assert_eq!(with_nil.tallied, 40);
    assert_eq!(with_nil, with_absent);
}

#[test]
fn nil_signature_is_verified_all_the_same() {
    let outcome = tally_of(&[Cast::Commit(1), Cast::ForgedNil(2), Cast::Commit(3)], &FOUR);
    match outcome {
        Err(VerificationError::InvalidSignature { validator: v, .. }) => {
            assert_eq!(v, validator(2, 20))
        }
        other => panic!("unexpected outcome: {:?}", other),
    }
}

#[test]
fn duplicate_signer_is_rejected() {
    let outcome = tally_of(&[Cast::Commit(1), Cast::Commit(2), Cast::Commit(1)], &FOUR);
    assert_eq!(outcome, Err(VerificationError::DuplicateValidator(Address::new([1; 20]))));
    let with_nil = tally_of(&[Cast::Nil(3), Cast::Absent, Cast::Commit(3)], &FOUR);
    assert_eq!(with_nil, Err(VerificationError::DuplicateValidator(Address::new([3; 20]))));
    let stranger_twice = tally_of(&[Cast::Commit(9), Cast::Commit(9)], &FOUR);
    assert_eq!(stranger_twice, Err(VerificationError::DuplicateValidator(Address::new([9; 20]))));
}

#[test]
fn bad_signature_before_a_duplicate_is_reported_first() {
    let outcome = tally_of(&[Cast::Commit(1), Cast::Forged(2), Cast::Commit(1)], &FOUR);
    assert!(matches!(outcome, Err(VerificationError::InvalidSignature { .. })));
    let outcome = tally_of(&[Cast::Commit(1), Cast::Commit(1), Cast::Forged(2)], &FOUR);
    assert_eq!(outcome, Err(VerificationError::DuplicateValidator(Address::new([1; 20]))));
}

#[test]
fn invalid_signature_carries_what_was_checked() {
    let set = set_of(&FOUR);
    let header = signed_header(5, &set, &set, &[Cast::Commit(1), Cast::Forged(2)]);
    let outcome = calculator().voting_power_in(&header, &set, TrustThreshold::one_third());
    let vote = non_absent_vote(&header.commit.signatures[1], 1, &header.commit).unwrap();
    assert_eq!(
        outcome,
        Err(VerificationError::InvalidSignature {
            signature: vote.signature,
            validator: validator(2, 20),
            sign_bytes: vote.sign_bytes(&CHAIN.to_vec()),
        })
    );
}

#[test]
fn stray_signers_are_passed_over() {
    let tally = tally_of(&[Cast::Commit(8), Cast::Commit(2), Cast::Forged(9)], &FOUR).unwrap();
    assert_eq!((tally.tallied, tally.total), (20, 100));
}

#[test]
fn signature_is_bound_to_the_place_in_the_chain() {
    // The same vote on another chain does not verify.
    let set = set_of(&FOUR);
    let mut header = signed_header(5, &set, &set, &[Cast::Commit(1)]);
    header.header.chain_id = b"other-chain".to_vec();
    let outcome = calculator().voting_power_in(&header, &set, TrustThreshold::one_third());
    assert!(matches!(outcome, Err(VerificationError::InvalidSignature { .. })));
}

#[test]
fn total_power_of_is_the_sum() {
    assert_eq!(calculator().total_power_of(&set_of(&FOUR)), 100);
    assert_eq!(calculator().total_power_of(&set_of(&[])), 0);
}

#[test]
fn enough_trust_at_the_threshold() {
    let set = set_of(&[(1, 1), (2, 1), (3, 1)]);
    let one = signed_header(5, &set, &set, &[Cast::Commit(1), Cast::Absent, Cast::Absent]);
    assert_eq!(calculator().check_enough_trust(&one, &set, TrustThreshold::one_third()), Ok(()));
    let shortfall = calculator().check_enough_trust(&one, &set, TrustThreshold::two_thirds());
    assert_eq!(
        shortfall,
        Err(VerificationError::NotEnoughTrust(VotingPowerTally {
            total: 3,
            tallied: 1,
            trust_threshold: TrustThreshold::two_thirds(),
        }))
    );
    let none = signed_header(5, &set, &set, &[Cast::Absent, Cast::Absent, Cast::Absent]);
    assert!(matches!(
        calculator().check_enough_trust(&none, &set, TrustThreshold::one_third()),
        Err(VerificationError::NotEnoughTrust(_))
    ));
}

#[test]
fn empty_validator_set_gives_no_trust() {
    let empty = set_of(&[]);
    let header = signed_header(5, &empty, &empty, &[]);
    assert_eq!(
        calculator().check_enough_trust(&header, &empty, TrustThreshold::one_third()),
        Err(VerificationError::NotEnoughTrust(VotingPowerTally {
            total: 0,
            tallied: 0,
            trust_threshold: TrustThreshold::one_third(),
        }))
    );
    assert_eq!(
        calculator().check_signers_overlap(&header, &empty),
        Err(VerificationError::InsufficientSignersOverlap(VotingPowerTally {
            total: 0,
            tallied: 0,
            trust_threshold: TrustThreshold::two_thirds(),
        }))
    );
}

#[test]
fn signers_overlap_must_exceed_two_thirds() {
    let set = set_of(&[(1, 1), (2, 1), (3, 1)]);
    let two = signed_header(5, &set, &set, &[Cast::Commit(1), Cast::Commit(2), Cast::Absent]);
    assert_eq!(
        calculator().check_signers_overlap(&two, &set),
        Err(VerificationError::InsufficientSignersOverlap(VotingPowerTally {
            total: 3,
            tallied: 2,
            trust_threshold: TrustThreshold::two_thirds(),
        }))
    );
    let three = signed_header(5, &set, &set, &[Cast::Commit(1), Cast::Commit(2), Cast::Commit(3)]);
    assert_eq!(calculator().check_signers_overlap(&three, &set), Ok(()));
}

#[test]
fn checks_pass_on_the_error_of_the_tally() {
    let set = set_of(&FOUR);
    let header = signed_header(5, &set, &set, &[Cast::Commit(1), Cast::Commit(1)]);
    let duplicate = Err(VerificationError::DuplicateValidator(Address::new([1; 20])));
    assert_eq!(calculator().check_enough_trust(&header, &set, TrustThreshold::one_third()), duplicate);
    assert_eq!(calculator().check_signers_overlap(&header, &set), duplicate);
}

// ---------------------------------------------------------------- commit validator

#[test]
fn commit_must_have_one_entry_per_validator() {
    let set = set_of(&FOUR);
    let short = signed_header(5, &set, &set, &[Cast::Commit(1), Cast::Commit(2)]);
    assert_eq!(
        ProdCommitValidator.validate(&short, &set),
        Err(VerificationError::InvalidCommit(CommitFault::LengthMismatch {
            signatures: 2,
            validators: 4
        }))
    );
    let full = full_block(5, &FOUR, &FOUR);
    assert_eq!(ProdCommitValidator.validate(&full.signed_header, &set), Ok(()));
}

#[test]
fn commit_must_be_signed_by_validators_once_each() {
    let set = set_of(&FOUR);
    let stray = signed_header(5, &set, &set, &[Cast::Commit(1), Cast::Commit(9), Cast::Absent, Cast::Absent]);
    assert_eq!(
        ProdCommitValidator.validate_full(&stray, &set),
        Err(VerificationError::InvalidCommit(CommitFault::UnknownValidator(Address::new([9; 20]))))
    );
    let twice = signed_header(5, &set, &set, &[Cast::Commit(1), Cast::Nil(1), Cast::Commit(9), Cast::Absent]);
    assert_eq!(
        ProdCommitValidator.validate_full(&twice, &set),
        Err(VerificationError::InvalidCommit(CommitFault::RepeatedValidator(Address::new([1; 20]))))
    );
    let fine = signed_header(5, &set, &set, &[Cast::Commit(1), Cast::Nil(2), Cast::Absent, Cast::Absent]);
    assert_eq!(ProdCommitValidator.validate_full(&fine, &set), Ok(()));
}

// ---------------------------------------------------------------- predicates

#[test]
fn predicates_on_time_and_height() {
    let p = ProdPredicates;
    let old = full_block(10, &FOUR, &FOUR).signed_header.header;
    let new = full_block(11, &FOUR, &FOUR).signed_header.header;
    assert_eq!(p.is_monotonic_height(&new, &old), Ok(()));
    assert_eq!(
        p.is_monotonic_height(&old, &old),
        Err(VerificationError::NonMonotonicHeight { got: 10, trusted: 10 })
    );
    assert_eq!(p.is_monotonic_bft_time(&new, &old), Ok(()));
    assert_eq!(
        p.is_monotonic_bft_time(&old, &new),
        Err(VerificationError::NonMonotonicBftTime {
            header_time: time_at(10),
            trusted_time: time_at(11)
        })
    );
    // time + period > now
    assert_eq!(p.is_within_trust_period(&old, Duration(5), Time(10 * SECOND + 4)), Ok(()));
    assert_eq!(
        p.is_within_trust_period(&old, Duration(5), Time(10 * SECOND + 5)),
        Err(VerificationError::Expired { trusted_time: time_at(10), now: Time(10 * SECOND + 5) })
    );
    // time < now + drift
    assert_eq!(p.is_header_from_past(&old, Duration(5), Time(10 * SECOND - 4)), Ok(()));
    assert_eq!(
        p.is_header_from_past(&old, Duration(5), Time(10 * SECOND - 5)),
        Err(VerificationError::HeaderFromFuture {
            header_time: time_at(10),
            now: Time(10 * SECOND - 5)
        })
    );
}

#[test]
fn predicates_on_time_do_not_overflow() {
    let p = ProdPredicates;
    let mut header = full_block(10, &FOUR, &FOUR).signed_header.header;
    header.time = Time(u64::MAX);
    assert_eq!(p.is_within_trust_period(&header, Duration(u64::MAX), Time(u64::MAX)), Ok(()));
    assert!(p.is_header_from_past(&header, Duration(0), Time(u64::MAX)).is_err());
    assert_eq!(p.is_header_from_past(&header, Duration(1), Time(u64::MAX)), Ok(()));
}

#[test]
fn predicates_on_hashes() {
    let p = ProdPredicates;
    let good = full_block(11, &FOUR, &FOUR);
    assert_eq!(p.validator_sets_match(&good, &ToyHasher), Ok(()));
    assert_eq!(p.next_validators_match(&good, &ToyHasher), Ok(()));
    assert_eq!(p.header_matches_commit(&good.signed_header, &ToyHasher), Ok(()));
    assert_eq!(p.valid_commit(&good.signed_header, &good.validators, &ProdCommitValidator), Ok(()));

    let mut bad = full_block(11, &FOUR, &FOUR);
    bad.validators = set_of(&[(1, 10)]);
    assert_eq!(
        p.validator_sets_match(&bad, &ToyHasher),
        Err(VerificationError::InvalidValidatorSet {
            header_validators_hash: validators_hash(&set_of(&FOUR)),
            validators_hash: validators_hash(&set_of(&[(1, 10)])),
        })
    );
    let mut bad = full_block(11, &FOUR, &FOUR);
    bad.next_validators = set_of(&[(1, 10)]);
    assert_eq!(
        p.next_validators_match(&bad, &ToyHasher),
        Err(VerificationError::InvalidNextValidatorSet {
            header_next_validators_hash: validators_hash(&set_of(&FOUR)),
            next_validators_hash: validators_hash(&set_of(&[(1, 10)])),
        })
    );
}

// ---------------------------------------------------------------- verifier

fn trusted_at_10() -> LightBlock {
    full_block(10, &FOUR, &FOUR)
}

fn verdict(untrusted: &LightBlock, trusted: &LightBlock, options: &Options, now: Time) -> Verdict {
    toy_verifier(now).verify_at(untrusted, trusted, options, now)
}

#[test]
fn adjacent_block_with_the_announced_validators_succeeds() {
    // Three of four validators sign, with 90 of 100 power.
    let untrusted = block(
        11,
        &FOUR,
        &FOUR,
        &[Cast::Absent, Cast::Commit(2), Cast::Commit(3), Cast::Commit(4)],
    );
    assert_eq!(verdict(&untrusted, &trusted_at_10(), &options(), time_at(12)), Verdict::Success);
}

#[test]
fn adjacent_block_needs_no_tally_against_the_trusted_set() {
    // The trusted block's next validators are swapped for strangers that
    // hash alike in no way: only the announced hash counts.
    let untrusted = full_block(11, &FOUR, &FOUR);
    let mut trusted = trusted_at_10();
    trusted.next_validators = set_of(&[(7, 1)]);
    assert_eq!(verdict(&untrusted, &trusted, &options(), time_at(12)), Verdict::Success);
    let mut strict = options();
    strict.trust_threshold = TrustThreshold::new(1, 1).unwrap();
    assert_eq!(verdict(&untrusted, &trusted, &strict, time_at(12)), Verdict::Success);
}

#[test]
fn adjacent_block_with_other_validators_is_invalid() {
    let others = [(5, 50), (6, 50)];
    let untrusted = full_block(11, &others, &others);
    assert_eq!(
        verdict(&untrusted, &trusted_at_10(), &options(), time_at(12)),
        Verdict::Invalid(VerificationError::InvalidNextValidatorSet {
            header_next_validators_hash: validators_hash(&set_of(&FOUR)),
            next_validators_hash: validators_hash(&set_of(&others)),
        })
    );
}

/// A validator set at height 100 of which the validators 4 (and 3) are of
/// the trusted set.
const LATER: [(u8, u64); 3] = [(4, 40), (5, 30), (6, 30)];

#[test]
fn skipping_block_with_enough_overlap_succeeds() {
    // Validator 4 holds 40 of the 100 power of the trusted next validators;
    // all of the block's own validators sign.
    let untrusted = full_block(100, &LATER, &LATER);
    assert_eq!(verdict(&untrusted, &trusted_at_10(), &options(), time_at(101)), Verdict::Success);
}

#[test]
fn skipping_block_with_little_overlap_is_not_trusted_yet() {
    // Validator 1 holds 10 of the 100 power of the trusted next validators.
    let few = [(1, 10), (5, 45), (6, 45)];
    let untrusted = full_block(100, &few, &few);
    assert_eq!(
        verdict(&untrusted, &trusted_at_10(), &options(), time_at(101)),
        Verdict::NotEnoughTrust(VerificationError::NotEnoughTrust(VotingPowerTally {
            total: 100,
            tallied: 10,
            trust_threshold: TrustThreshold::one_third(),
        }))
    );
}

#[test]
fn not_enough_trust_makes_the_scheduler_bisect() {
    let few = [(1, 10), (5, 45), (6, 45)];
    let untrusted = full_block(100, &few, &few);
    let first = verdict(&untrusted, &trusted_at_10(), &options(), time_at(101));
    assert!(matches!(first, Verdict::NotEnoughTrust(_)));
    let mut store = MemoryStore::new();
    assert!(store.insert(trusted_at_10(), Status::Trusted));
    assert!(store.insert(untrusted, Status::Verified));
    assert_eq!(schedule(&store, 100), Step::Fetch(55));
}

#[test]
fn weaker_threshold_keeps_success() {
    let untrusted = full_block(100, &LATER, &LATER);
    let mut strict = options();
    strict.trust_threshold = TrustThreshold::new(2, 5).unwrap();
    assert_eq!(verdict(&untrusted, &trusted_at_10(), &strict, time_at(101)), Verdict::Success);
    assert_eq!(verdict(&untrusted, &trusted_at_10(), &options(), time_at(101)), Verdict::Success);
    // and a stronger one does not
    strict.trust_threshold = TrustThreshold::new(1, 2).unwrap();
    assert!(matches!(
        verdict(&untrusted, &trusted_at_10(), &strict, time_at(101)),
        Verdict::NotEnoughTrust(_)
    ));
}

#[test]
fn commit_for_another_header_is_invalid() {
    let mut untrusted = full_block(11, &FOUR, &FOUR);
    let right = untrusted.signed_header.commit.block_id.hash;
    untrusted.signed_header.commit.block_id.hash = Digest::new([0; 32]);
    assert_eq!(
        verdict(&untrusted, &trusted_at_10(), &options(), time_at(12)),
        Verdict::Invalid(VerificationError::InvalidCommitValue {
            header_hash: right,
            commit_hash: Digest::new([0; 32]),
        })
    );
}

#[test]
fn expired_trusted_block_gives_an_invalid_verdict() {
    let untrusted = full_block(11, &FOUR, &FOUR);
    let mut short = options();
    short.trusting_period = Duration(SECOND);
    let now = Time(12 * SECOND);
    assert_eq!(
        verdict(&untrusted, &trusted_at_10(), &short, now),
        Verdict::Invalid(VerificationError::Expired { trusted_time: time_at(10), now })
    );
}

#[test]
fn header_from_the_future_is_invalid() {
    let untrusted = full_block(11, &FOUR, &FOUR);
    let now = Time(11 * SECOND - 5 * SECOND);
    assert_eq!(
        verdict(&untrusted, &trusted_at_10(), &options(), now),
        Verdict::Invalid(VerificationError::HeaderFromFuture { header_time: time_at(11), now })
    );
    let just = Time(11 * SECOND - 5 * SECOND + 1);
    assert_eq!(verdict(&untrusted, &trusted_at_10(), &options(), just), Verdict::Success);
}

#[test]
fn block_that_is_not_later_is_invalid() {
    let same = full_block(10, &FOUR, &FOUR);
    assert_eq!(
        verdict(&same, &trusted_at_10(), &options(), time_at(12)),
        Verdict::Invalid(VerificationError::NonMonotonicBftTime {
            header_time: time_at(10),
            trusted_time: time_at(10),
        })
    );
    let mut lower = full_block(9, &FOUR, &FOUR);
    lower.signed_header.header.time = time_at(11);
    let rehashed = header_hash(&lower.signed_header.header);
    lower.signed_header.commit.block_id.hash = rehashed;
    assert_eq!(
        verdict(&lower, &trusted_at_10(), &options(), time_at(12)),
        Verdict::Invalid(VerificationError::NonMonotonicHeight { got: 9, trusted: 10 })
    );
}

#[test]
fn block_without_two_thirds_of_its_own_signers_is_invalid() {
    // 40 + 20 = 60 of 100 sign: enough overlap with the trusted set, not
    // enough of the block's own.
    let untrusted = block(
        50,
        &FOUR,
        &FOUR,
        &[Cast::Absent, Cast::Commit(2), Cast::Absent, Cast::Commit(4)],
    );
    assert_eq!(
        verdict(&untrusted, &trusted_at_10(), &options(), time_at(51)),
        Verdict::Invalid(VerificationError::InsufficientSignersOverlap(VotingPowerTally {
            total: 100,
            tallied: 60,
            trust_threshold: TrustThreshold::two_thirds(),
        }))
    );
}

#[test]
fn malformed_commits_are_invalid() {
    let short = block(11, &FOUR, &FOUR, &[Cast::Commit(1)]);
    assert!(matches!(
        verdict(&short, &trusted_at_10(), &options(), time_at(12)),
        Verdict::Invalid(VerificationError::InvalidCommit(CommitFault::LengthMismatch { .. }))
    ));
    let twice = block(
        11,
        &FOUR,
        &FOUR,
        &[Cast::Commit(1), Cast::Commit(1), Cast::Commit(3), Cast::Commit(4)],
    );
    assert_eq!(
        verdict(&twice, &trusted_at_10(), &options(), time_at(12)),
        Verdict::Invalid(VerificationError::InvalidCommit(CommitFault::RepeatedValidator(
            Address::new([1; 20])
        )))
    );
    let forged = block(
        11,
        &FOUR,
        &FOUR,
        &[Cast::Commit(1), Cast::Forged(2), Cast::Commit(3), Cast::Commit(4)],
    );
    assert!(matches!(
        verdict(&forged, &trusted_at_10(), &options(), time_at(12)),
        Verdict::Invalid(VerificationError::InvalidSignature { .. })
    ));
}

#[test]
fn checks_are_made_in_order() {
    // Wrong validators and an expired trusted block: the block's own
    // consistency is looked at first.
    let mut untrusted = full_block(11, &FOUR, &FOUR);
    untrusted.validators = set_of(&[(1, 10)]);
    let mut short = options();
    short.trusting_period = Duration(1);
    assert!(matches!(
        verdict(&untrusted, &trusted_at_10(), &short, time_at(12)),
        Verdict::Invalid(VerificationError::InvalidValidatorSet { .. })
    ));
}

#[test]
fn verdict_depends_on_the_inputs_alone() {
    let untrusted = full_block(100, &LATER, &LATER);
    let first = verdict(&untrusted, &trusted_at_10(), &options(), time_at(101));
    let second = verdict(&untrusted.clone(), &trusted_at_10(), &options(), time_at(101));
    assert_eq!(first, second);
}

#[test]
fn verifier_reads_its_clock() {
    let untrusted = full_block(11, &FOUR, &FOUR);
    assert_eq!(toy_verifier(time_at(12)).verify(&untrusted, &trusted_at_10(), &options()), Verdict::Success);
    assert!(matches!(
        toy_verifier(time_at(5000)).verify(&untrusted, &trusted_at_10(), &options()),
        Verdict::Invalid(VerificationError::Expired { .. })
    ));
}

#[test]
fn default_verifier_is_made_of_the_default_parts() {
    let verifier = ToyVerifier::default();
    assert_eq!(verifier.clock, FixedClock(time_at(12)));
    let untrusted = full_block(11, &FOUR, &FOUR);
    assert_eq!(verifier.verify(&untrusted, &trusted_at_10(), &options()), Verdict::Success);
}

#[test]
fn validators_without_power_give_no_trust() {
    let idle = [(1, 0), (2, 0)];
    let set = set_of(&idle);
    let header = signed_header(5, &set, &set, &[Cast::Commit(1), Cast::Commit(2)]);
    let tally = calculator().voting_power_in(&header, &set, TrustThreshold::one_third()).unwrap();
    assert_eq!((tally.tallied, tally.total), (0, 0));
    assert!(matches!(
        calculator().check_enough_trust(&header, &set, TrustThreshold::one_third()),
        Err(VerificationError::NotEnoughTrust(_))
    ));
    assert!(matches!(
        calculator().check_signers_overlap(&header, &set),
        Err(VerificationError::InsufficientSignersOverlap(_))
    ));
}

#[test]
fn signer_is_counted_as_the_first_validator_of_its_address() {
    let set = ValidatorSet::new(vec![validator(1, 10), validator(1, 99), validator(2, 5)]).unwrap();
    let header = signed_header(5, &set, &set, &[Cast::Commit(1), Cast::Absent, Cast::Commit(2)]);
    let tally = calculator().voting_power_in(&header, &set, TrustThreshold::one_third()).unwrap();
    assert_eq!((tally.tallied, tally.total), (15, 114));
}

#[test]
fn verdict_from_outcome() {
    let tally = VotingPowerTally { total: 3, tallied: 1, trust_threshold: TrustThreshold::one_third() };
    assert_eq!(Verdict::from(Ok(())), Verdict::Success);
    assert!(Verdict::from_outcome(Ok(())).is_success());
    assert_eq!(
        Verdict::from(Err(VerificationError::NotEnoughTrust(tally))),
        Verdict::NotEnoughTrust(VerificationError::NotEnoughTrust(tally))
    );
    assert_eq!(
        Verdict::from(Err(VerificationError::InsufficientSignersOverlap(tally))),
        Verdict::Invalid(VerificationError::InsufficientSignersOverlap(tally))
    );
    assert_eq!(
        Verdict::from_outcome(Err(VerificationError::DuplicateValidator(Address::new([1; 20])))),
        Verdict::Invalid(VerificationError::DuplicateValidator(Address::new([1; 20])))
    );
    assert!(VerificationError::NotEnoughTrust(tally).not_enough_trust());
    assert!(!VerificationError::InsufficientSignersOverlap(tally).not_enough_trust());
}

#[test]
fn verify_runs_the_whole_pipeline() {
    let untrusted = full_block(11, &FOUR, &FOUR);
    let outcome = verify(
        &ProdPredicates,
        &calculator(),
        &ProdCommitValidator,
        &ToyHasher,
        &trusted_at_10(),
        &untrusted,
        &options(),
        time_at(12),
    );
    assert_eq!(outcome, Ok(()));
}

// ---------------------------------------------------------------- store

#[test]
fn store_gets_what_was_put_in_by_height_and_status() {
    let mut store = MemoryStore::new();
    assert_eq!(store.get(10, Status::Trusted), None);
    assert!(store.insert(full_block(10, &FOUR, &FOUR), Status::Trusted));
    assert!(store.insert(full_block(20, &FOUR, &FOUR), Status::Unverified));
    assert_eq!(store.get(10, Status::Trusted), Some(&full_block(10, &FOUR, &FOUR)));
    assert_eq!(store.get(10, Status::Verified), None);
    assert_eq!(store.get(20, Status::Unverified).map(|b| b.height()), Some(20));
    assert_eq!(store.get(30, Status::Unverified), None);
}

#[test]
fn store_never_takes_trust_back() {
    let mut store = MemoryStore::new();
    assert!(store.insert(full_block(10, &FOUR, &FOUR), Status::Trusted));
    assert!(!store.update(10, Status::Verified));
    assert!(!store.update(10, Status::Unverified));
    assert!(!store.update(10, Status::Failed));
    assert!(!store.insert(full_block(10, &LATER, &LATER), Status::Unverified));
    assert!(!store.insert(full_block(10, &LATER, &LATER), Status::Trusted));
    assert_eq!(store.get(10, Status::Trusted), Some(&full_block(10, &FOUR, &FOUR)));
    assert!(store.update(10, Status::Trusted));
}

#[test]
fn store_moves_status_forward() {
    let mut store = MemoryStore::new();
    assert!(store.insert(full_block(20, &FOUR, &FOUR), Status::Unverified));
    assert!(store.update(20, Status::Verified));
    assert!(!store.update(20, Status::Unverified));
    assert!(!store.insert(full_block(20, &FOUR, &FOUR), Status::Unverified));
    assert!(store.update(20, Status::Trusted));
    assert_eq!(store.get(20, Status::Trusted).map(|b| b.height()), Some(20));
    assert!(!store.update(30, Status::Verified));
}

#[test]
fn failed_block_gives_way_to_a_fresh_one() {
    let mut store = MemoryStore::new();
    assert!(store.insert(full_block(20, &FOUR, &FOUR), Status::Unverified));
    assert!(store.update(20, Status::Failed));
    assert!(!store.update(20, Status::Verified));
    assert!(store.insert(full_block(20, &LATER, &LATER), Status::Unverified));
    assert_eq!(store.get(20, Status::Unverified), Some(&full_block(20, &LATER, &LATER)));
}

#[test]
fn store_finds_the_highest_and_the_lowest() {
    let mut store = MemoryStore::new();
    for (height, status) in [
        (40, Status::Verified),
        (10, Status::Trusted),
        (30, Status::Trusted),
        (20, Status::Verified),
        (50, Status::Unverified),
        (60, Status::Failed),
    ] {
        assert!(store.insert(full_block(height, &FOUR, &FOUR), status));
    }
    assert_eq!(store.latest(Status::Trusted).map(|b| b.height()), Some(30));
    assert_eq!(store.latest(Status::Verified).map(|b| b.height()), Some(40));
    assert_eq!(store.latest(Status::Failed).map(|b| b.height()), Some(60));
    assert_eq!(MemoryStore::new().latest(Status::Trusted), None);
    assert_eq!(store.highest_at_or_below(Status::Trusted, 29).map(|b| b.height()), Some(10));
    assert_eq!(store.highest_at_or_below(Status::Trusted, 30).map(|b| b.height()), Some(30));
    assert_eq!(store.highest_at_or_below(Status::Trusted, 9), None);
    assert_eq!(store.lowest_above(Status::Verified, 10).map(|b| b.height()), Some(20));
    assert_eq!(store.lowest_above(Status::Verified, 20).map(|b| b.height()), Some(40));
    assert_eq!(store.lowest_above(Status::Verified, 40), None);
    assert_eq!(store.highest_trusted_or_verified_below(41).map(|b| b.height()), Some(40));
    assert_eq!(store.highest_trusted_or_verified_below(40).map(|b| b.height()), Some(30));
    assert_eq!(store.highest_trusted_or_verified_below(30).map(|b| b.height()), Some(20));
    assert_eq!(store.highest_trusted_or_verified_below(10), None);
    assert_eq!(store.highest_trusted_or_verified_below(0), None);
}

// ---------------------------------------------------------------- scheduler

#[test]
fn midpoint_rounds_towards_the_trusted_height() {
    assert_eq!(midpoint(10, 100), 55);
    assert_eq!(midpoint(10, 55), 32);
    assert_eq!(midpoint(10, 11), 11);
    assert_eq!(midpoint(10, 12), 11);
    assert_eq!(midpoint(10, 13), 11);
    assert_eq!(midpoint(0, u64::MAX), u64::MAX / 2);
    assert_eq!(midpoint(u64::MAX - 1, u64::MAX), u64::MAX);
}

#[test]
fn schedule_tells_what_to_do() {
    let mut store = MemoryStore::new();
    assert_eq!(schedule(&store, 100), Step::Stuck);
    store.insert(full_block(10, &FOUR, &FOUR), Status::Trusted);
    assert_eq!(schedule(&store, 9), Step::Stuck);
    assert_eq!(schedule(&store, 10), Step::Reached);
    assert_eq!(schedule(&store, 11), Step::Fetch(11));
    // the target itself is tried first
    assert_eq!(schedule(&store, 100), Step::Fetch(100));
    store.insert(full_block(150, &FOUR, &FOUR), Status::Verified);
    assert_eq!(schedule(&store, 100), Step::Fetch(100));
    store.insert(full_block(100, &FOUR, &FOUR), Status::Verified);
    assert_eq!(schedule(&store, 100), Step::Fetch(55));
    store.insert(full_block(55, &FOUR, &FOUR), Status::Verified);
    assert_eq!(schedule(&store, 100), Step::Fetch(32));
    store.insert(full_block(32, &FOUR, &FOUR), Status::Trusted);
    assert_eq!(schedule(&store, 100), Step::Fetch(43));
    store.insert(full_block(54, &FOUR, &FOUR), Status::Trusted);
    assert_eq!(schedule(&store, 100), Step::Fetch(55));
    // a verified block above the target is no pivot
    assert_eq!(schedule(&store, 55), Step::Fetch(55));
    store.insert(full_block(200, &FOUR, &FOUR), Status::Trusted);
    assert_eq!(schedule(&store, 100), Step::Fetch(55));
}

#[test]
fn schedule_at_the_top_of_the_heights() {
    let mut store = MemoryStore::new();
    store.insert(full_block(u64::MAX - 2, &FOUR, &FOUR), Status::Trusted);
    assert_eq!(schedule(&store, u64::MAX), Step::Fetch(u64::MAX));
    let mut top = full_block(10, &FOUR, &FOUR);
    top.signed_header.header.height = u64::MAX;
    store.insert(top, Status::Verified);
    assert_eq!(schedule(&store, u64::MAX), Step::Fetch(u64::MAX - 1));
}

#[test]
fn bisection_is_short() {
    // Every height that is proposed comes back without enough trust.
    let mut pivot = 100;
    let mut asked = vec![pivot];
    while pivot > 11 {
        pivot = midpoint(10, pivot);
        assert!(!asked.contains(&pivot));
        asked.push(pivot);
    }
    assert_eq!(asked, vec![100, 55, 32, 21, 15, 12, 11]);
    // ceil(log2(90)) + 1
    assert!(asked.len() <= 7 + 1);
}

// ---------------------------------------------------------------- light client

/// A peer that serves the blocks it was given, and counts the requests.
struct Peer {
    blocks: HashMap<u64, LightBlock>,
    highest: u64,
    requests: Cell<usize>,
    asked: RefCell<Vec<AtHeight>>,
    failure: Option<IoError>,
}

impl Peer {
    fn serving(blocks: Vec<LightBlock>) -> Peer {
        let highest = blocks.iter().map(|b| b.height()).max().unwrap_or(0);
        Peer {
            blocks: blocks.into_iter().map(|b| (b.height(), b)).collect(),
            highest,
            requests: Cell::new(0),
            asked: RefCell::new(Vec::new()),
            failure: None,
        }
    }

    fn failing(failure: IoError) -> Peer {
        let mut peer = Peer::serving(Vec::new());
        peer.failure = Some(failure);
        peer
    }
}

impl Io for Peer {
    fn exchanges(&self) -> Exchanges {
        unreachable!()
    }

    fn fetch_light_block(&mut self, _peer: PeerId, at: AtHeight) -> Result<LightBlock, IoError> {
        self.requests.set(self.requests.get() + 1);
        self.asked.borrow_mut().push(at);
        if let Some(failure) = &self.failure {
            return Err(failure.clone());
        }
        let height = match at {
            AtHeight::Exact(height) => height,
            AtHeight::Highest => self.highest,
        };
        self.blocks.get(&height).cloned().ok_or(IoError::InvalidHeight)
    }
}

type ToyClient = LightClient<Peer, ToyVerifier, MemoryStore, FixedClock>;

fn client(peer: Peer, trusted: LightBlock, now: Time) -> ToyClient {
    let mut store = MemoryStore::new();
    store.insert(trusted, Status::Trusted);
    LightClient::new(PeerId::new([1; 20]), options(), 0, peer, toy_verifier(now), FixedClock(now), store)
}

/// A chain in which the validators change at `turn`: blocks below it are
/// signed by `FOUR`, blocks from it on by `LATER`.
fn chain(heights: &[u64], turn: u64, late: &[(u8, u64)]) -> Vec<LightBlock> {
    heights
        .iter()
        .map(|h| {
            let vals: &[(u8, u64)] = if *h >= turn { late } else { &FOUR };
            let next: &[(u8, u64)] = if *h + 1 >= turn { late } else { &FOUR };
            full_block(*h, vals, next)
        })
        .collect()
}

#[test]
fn adjacent_block_is_brought_to_trust() {
    let peer = Peer::serving(vec![full_block(11, &FOUR, &FOUR)]);
    let mut client = client(peer, trusted_at_10(), time_at(12));
    let block = client.verify_to_target(11).unwrap();
    assert_eq!(block, full_block(11, &FOUR, &FOUR));
    assert_eq!(client.store.get(11, Status::Trusted), Some(&block));
    assert_eq!(client.store.get(10, Status::Trusted), Some(&trusted_at_10()));
    assert_eq!(client.io.requests.get(), 1);
    assert_eq!(client.latest_trusted(), Some(block));
}

#[test]
fn target_that_is_trusted_needs_no_fetch() {
    let mut client = client(Peer::serving(Vec::new()), trusted_at_10(), time_at(12));
    assert_eq!(client.verify_to_target(10), Ok(trusted_at_10()));
    assert_eq!(client.io.requests.get(), 0);
}

#[test]
fn client_without_a_trusted_block_is_stuck() {
    let mut client = client(Peer::serving(Vec::new()), trusted_at_10(), time_at(12));
    assert_eq!(client.verify_to_target(9), Err(Error::NoTrustedState));
    let mut empty: ToyClient = LightClient::new(
        PeerId::new([1; 20]),
        options(),
        0,
        Peer::serving(Vec::new()),
        toy_verifier(time_at(12)),
        FixedClock(time_at(12)),
        MemoryStore::new(),
    );
    assert_eq!(empty.verify_to_target(11), Err(Error::NoTrustedState));
    assert_eq!(empty.latest_trusted(), None);
}

#[test]
fn expired_trusted_block_stops_the_client_before_any_fetch() {
    let peer = Peer::serving(vec![full_block(11, &FOUR, &FOUR)]);
    let now = Time(10 * SECOND + 1_000 * SECOND);
    let mut client = client(peer, trusted_at_10(), now);
    assert_eq!(
        client.verify_to_target(11),
        Err(Error::InvalidLightBlock(VerificationError::Expired {
            trusted_time: time_at(10),
            now
        }))
    );
    assert_eq!(client.io.requests.get(), 0);
}

#[test]
fn client_bisects_until_the_target_is_trusted() {
    // The validators change at height 30 to a set that shares 10 of 100
    // power with the old one: nothing from 30 on can be trusted from below
    // 29 by skipping.
    let late = [(1, 10), (5, 45), (6, 45)];
    let heights: Vec<u64> = (11..=40).collect();
    let peer = Peer::serving(chain(&heights, 30, &late));
    let mut client = client(peer, trusted_at_10(), time_at(41));
    let block = client.verify_to_target(40).unwrap();
    assert_eq!(block.height(), 40);
    assert_eq!(client.store.get(40, Status::Trusted), Some(&block));
    // the target is asked for first, then the midpoint, which was trusted
    // on the way
    assert_eq!(client.io.asked.borrow()[0], AtHeight::Exact(40));
    assert_eq!(client.io.asked.borrow()[1], AtHeight::Exact(25));
    assert!(client.store.get(25, Status::Trusted).is_some());
    // the block before the change had to be trusted to cross it
    assert!(client.store.get(29, Status::Trusted).is_some());
    // no block is left merely verified below the target
    assert_eq!(client.store.lowest_above(Status::Verified, 10), None);
    assert_eq!(client.store.get(10, Status::Trusted), Some(&trusted_at_10()));
}

#[test]
fn client_keeps_a_block_without_trust_as_verified() {
    // Only 15 and nothing in between is served: 15 cannot be trusted, and
    // the midpoint cannot be had.
    let late = [(1, 10), (5, 45), (6, 45)];
    let peer = Peer::serving(chain(&[15], 12, &late));
    let mut client = client(peer, trusted_at_10(), time_at(41));
    assert_eq!(client.verify_to_target(15), Err(Error::Io(IoError::InvalidHeight)));
    // 15 was asked for first, found, and kept as verified; then 12 was
    // asked for
    assert_eq!(
        *client.io.asked.borrow(),
        vec![AtHeight::Exact(15), AtHeight::Exact(12)]
    );
    assert_eq!(client.store.get(15, Status::Verified).map(|b| b.height()), Some(15));
    assert_eq!(client.latest_trusted(), Some(trusted_at_10()));
}

#[test]
fn invalid_block_fails_the_client_and_is_marked() {
    let mut bad = full_block(11, &FOUR, &FOUR);
    bad.signed_header.commit.block_id.hash = Digest::new([0; 32]);
    let mut client = client(Peer::serving(vec![bad]), trusted_at_10(), time_at(12));
    assert!(matches!(
        client.verify_to_target(11),
        Err(Error::InvalidLightBlock(VerificationError::InvalidCommitValue { .. }))
    ));
    assert_eq!(client.store.get(11, Status::Failed).map(|b| b.height()), Some(11));
    assert_eq!(client.store.get(11, Status::Trusted), None);
    // the peer is asked again on the next attempt, and answers the same
    assert!(client.verify_to_target(11).is_err());
    assert_eq!(client.io.requests.get(), 2);
}

/// A verifier that never finds enough trust.
struct NeverSure;

impl Verifier for NeverSure {
    fn verdict_at(
        &self,
        _untrusted: LightBlockView,
        _trusted: LightBlockView,
        _options: Options,
        _now: Time,
    ) -> VerdictView {
        unreachable!()
    }

    fn verify(&self, _untrusted: &LightBlock, _trusted: &LightBlock, _options: &Options) -> Verdict {
        Verdict::NotEnoughTrust(VerificationError::NotEnoughTrust(VotingPowerTally {
            total: 3,
            tallied: 0,
            trust_threshold: TrustThreshold::one_third(),
        }))
    }
}

#[test]
fn bisection_ends_where_no_height_is_left_between() {
    let heights: Vec<u64> = (11..=13).collect();
    let mut store = MemoryStore::new();
    store.insert(trusted_at_10(), Status::Trusted);
    let mut client = LightClient::new(
        PeerId::new([1; 20]),
        options(),
        0,
        Peer::serving(chain(&heights, 100, &LATER)),
        NeverSure,
        FixedClock(time_at(14)),
        store,
    );
    assert!(matches!(
        client.verify_to_target(13),
        Err(Error::CannotBisect(VerificationError::NotEnoughTrust(_)))
    ));
    assert_eq!(
        *client.io.asked.borrow(),
        vec![AtHeight::Exact(13), AtHeight::Exact(11)]
    );
    assert_eq!(client.store.get(13, Status::Verified).map(|b| b.height()), Some(13));
    assert_eq!(client.store.get(11, Status::Unverified).map(|b| b.height()), Some(11));
}

#[test]
fn io_failure_aborts_the_client() {
    let mut client = client(Peer::failing(IoError::Timeout), trusted_at_10(), time_at(12));
    assert_eq!(client.verify_to_target(11), Err(Error::Io(IoError::Timeout)));
    assert_eq!(client.verify_to_highest(), Err(Error::Io(IoError::Timeout)));
    let rpc = IoError::RpcError("no such block".to_string());
    let mut client = client_with_failure(rpc.clone());
    assert_eq!(client.verify_to_target(11), Err(Error::Io(rpc)));
}

fn client_with_failure(failure: IoError) -> ToyClient {
    client(Peer::failing(failure), trusted_at_10(), time_at(12))
}

/// A peer that times out a number of times before it answers.
struct Flaky {
    failures_left: Cell<u32>,
    failure: IoError,
    requests: Cell<usize>,
}

impl Io for Flaky {
    fn exchanges(&self) -> Exchanges {
        unreachable!()
    }

    fn fetch_light_block(&mut self, _peer: PeerId, _at: AtHeight) -> Result<LightBlock, IoError> {
        self.requests.set(self.requests.get() + 1);
        if self.failures_left.get() > 0 {
            self.failures_left.set(self.failures_left.get() - 1);
            return Err(self.failure.clone());
        }
        Ok(full_block(11, &FOUR, &FOUR))
    }
}

#[test]
fn transient_failures_are_retried_within_the_budget() {
    let peer = PeerId::new([1; 20]);
    let mut flaky = Flaky { failures_left: Cell::new(2), failure: IoError::Timeout, requests: Cell::new(0) };
    assert_eq!(
        fetch_with_retries(&mut flaky, peer, AtHeight::Exact(11), 2),
        Ok(full_block(11, &FOUR, &FOUR))
    );
    assert_eq!(flaky.requests.get(), 3);

    let mut flaky = Flaky { failures_left: Cell::new(3), failure: IoError::Timeout, requests: Cell::new(0) };
    assert_eq!(fetch_with_retries(&mut flaky, peer, AtHeight::Exact(11), 2), Err(IoError::Timeout));
    assert_eq!(flaky.requests.get(), 3);

    let mut flaky = Flaky { failures_left: Cell::new(1), failure: IoError::Timeout, requests: Cell::new(0) };
    assert_eq!(fetch_with_retries(&mut flaky, peer, AtHeight::Exact(11), 0), Err(IoError::Timeout));
    assert_eq!(flaky.requests.get(), 1);
}

#[test]
fn lasting_failures_are_not_retried() {
    let peer = PeerId::new([1; 20]);
    let mut flaky = Flaky {
        failures_left: Cell::new(1),
        failure: IoError::InvalidValidatorSet,
        requests: Cell::new(0),
    };
    assert_eq!(
        fetch_with_retries(&mut flaky, peer, AtHeight::Highest, 5),
        Err(IoError::InvalidValidatorSet)
    );
    assert_eq!(flaky.requests.get(), 1);
    assert!(IoError::Timeout.is_transient());
    assert!(IoError::RpcError("busy".to_string()).is_transient());
    assert!(!IoError::InvalidHeight.is_transient());
    assert!(!IoError::InvalidSignature.is_transient());
}

#[test]
fn tally_is_written_in_words() {
    let tally = VotingPowerTally { total: 100, tallied: 7, trust_threshold: TrustThreshold::one_third() };
    assert_eq!(tally.to_text(), "VotingPower(total=100 tallied=7 trust_threshold=1/3)");
    let zero = VotingPowerTally { total: 0, tallied: 0, trust_threshold: TrustThreshold::two_thirds() };
    assert_eq!(zero.to_text(), "VotingPower(total=0 tallied=0 trust_threshold=2/3)");
}

#[test]
fn block_of_another_height_than_asked_for_is_refused() {
    let mut peer = Peer::serving(Vec::new());
    peer.blocks.insert(11, full_block(12, &FOUR, &FOUR));
    let mut client = client(peer, trusted_at_10(), time_at(13));
    assert_eq!(client.verify_to_target(11), Err(Error::Io(IoError::InvalidHeight)));
    assert_eq!(client.store.get(12, Status::Unverified), None);
}

#[test]
fn client_takes_up_a_bisection_where_it_was_left() {
    // The target was found short of trust before, and is in the store as
    // verified: the client starts with the midpoint.
    let late = [(1, 10), (5, 45), (6, 45)];
    let heights: Vec<u64> = (11..=20).collect();
    let blocks = chain(&heights, 18, &late);
    let target = blocks[9].clone();
    let mut client = client(Peer::serving(blocks), trusted_at_10(), time_at(21));
    assert!(client.store.insert(target, Status::Verified));
    let block = client.verify_to_target(20).unwrap();
    assert_eq!(block.height(), 20);
    assert_eq!(client.io.asked.borrow()[0], AtHeight::Exact(15));
    assert!(!client.io.asked.borrow().contains(&AtHeight::Exact(20)));
    assert_eq!(client.store.get(20, Status::Trusted), Some(&block));
}

#[test]
fn client_verifies_to_the_highest_block() {
    let heights: Vec<u64> = (11..=14).collect();
    let peer = Peer::serving(chain(&heights, 100, &LATER));
    let mut client = client(peer, trusted_at_10(), time_at(15));
    let block = client.verify_to_highest().unwrap();
    assert_eq!(block.height(), 14);
    assert_eq!(client.store.get(14, Status::Trusted), Some(&block));
    assert_eq!(client.io.asked.borrow()[0], AtHeight::Highest);
}

// ---------------------------------------------------------------- fork detection

struct Reports(Vec<(Evidence, PeerId)>);

impl EvidenceReporter for Reports {
    fn submitted(&self) -> Submissions {
        unreachable!()
    }

    fn report(&mut self, evidence: &Evidence, peer: PeerId) -> Result<Digest, IoError> {
        self.0.push((evidence.clone(), peer));
        Ok(Digest::new([0; 32]))
    }
}

fn witness(id: u8, blocks: Vec<LightBlock>, now: Time) -> ToyClient {
    LightClient::new(
        PeerId::new([id; 20]),
        options(),
        0,
        Peer::serving(blocks),
        toy_verifier(now),
        FixedClock(now),
        MemoryStore::new(),
    )
}

fn block_a() -> LightBlock {
    full_block(50, &FOUR, &FOUR)
}

/// Another block at height 50, valid from the same ancestor.
fn block_b() -> LightBlock {
    let mut other = full_block(50, &FOUR, &FOUR);
    other.signed_header.header.app_hash = Digest::new([0xbb; 32]);
    let set = set_of(&FOUR);
    let mut resigned = signed_header(50, &set, &set, &[Cast::Commit(1), Cast::Commit(2), Cast::Commit(3), Cast::Commit(4)]);
    resigned.header.app_hash = Digest::new([0xbb; 32]);
    resigned.commit.block_id.hash = header_hash(&resigned.header);
    let commit = resigned.commit.clone();
    resigned.commit.signatures = [Cast::Commit(1), Cast::Commit(2), Cast::Commit(3), Cast::Commit(4)]
        .iter()
        .enumerate()
        .map(|(i, cast)| entry(*cast, i, &commit))
        .collect();
    other.signed_header = resigned;
    other
}

fn ancestor() -> LightBlock {
    full_block(40, &FOUR, &FOUR)
}

#[test]
fn witness_with_the_same_block_agrees() {
    let mut w = witness(2, vec![block_a()], time_at(51));
    let report = examine_witness(&mut w, &ToyHasher, &block_a(), &ancestor());
    assert_eq!(report, WitnessReport::Agrees);
}

#[test]
fn witness_with_another_valid_block_gives_evidence() {
    assert!(header_hash(&block_a().signed_header.header) != header_hash(&block_b().signed_header.header));
    let mut w = witness(2, vec![block_b()], time_at(51));
    let report = examine_witness(&mut w, &ToyHasher, &block_a(), &ancestor());
    assert_eq!(
        report,
        WitnessReport::Forked(Evidence {
            primary: block_a().signed_header,
            witness: block_b().signed_header,
            ancestor: ancestor().signed_header,
        })
    );
    assert_eq!(w.store.get(50, Status::Trusted), Some(&block_b()));
}

#[test]
fn witness_with_an_invalid_block_is_faulty() {
    let mut bad = block_b();
    bad.signed_header.commit.signatures[0] = CommitSig::Absent;
    bad.signed_header.commit.signatures[1] = CommitSig::Absent;
    bad.signed_header.commit.signatures[2] = CommitSig::Absent;
    let mut w = witness(2, vec![bad], time_at(51));
    let report = examine_witness(&mut w, &ToyHasher, &block_a(), &ancestor());
    assert!(matches!(
        report,
        WitnessReport::Faulty(Error::InvalidLightBlock(
            VerificationError::InsufficientSignersOverlap(_)
        ))
    ));
}

#[test]
fn witness_that_does_not_answer_is_unreachable() {
    let mut w = witness(2, Vec::new(), time_at(51));
    w.io.failure = Some(IoError::Timeout);
    let report = examine_witness(&mut w, &ToyHasher, &block_a(), &ancestor());
    assert_eq!(report, WitnessReport::Unreachable(IoError::Timeout));
}

#[test]
fn judge_tells_forks_from_faults() {
    let a = block_a();
    let anc = ancestor();
    assert_eq!(judge(&ToyHasher, &a, &anc, Ok(block_a())), WitnessReport::Agrees);
    assert!(matches!(judge(&ToyHasher, &a, &anc, Ok(block_b())), WitnessReport::Forked(_)));
    assert_eq!(
        judge(&ToyHasher, &a, &anc, Err(Error::Io(IoError::Timeout))),
        WitnessReport::Unreachable(IoError::Timeout)
    );
    assert_eq!(
        judge(&ToyHasher, &a, &anc, Err(Error::NoTrustedState)),
        WitnessReport::Faulty(Error::NoTrustedState)
    );
}

type ToySupervisor = Supervisor<Peer, ToyVerifier, MemoryStore, FixedClock, ToyHasher, Reports>;

fn supervisor(primary_blocks: Vec<LightBlock>, now: Time) -> ToySupervisor {
    let primary = client(Peer::serving(primary_blocks), ancestor(), now);
    Supervisor::new(primary, ToyHasher, Reports(Vec::new()))
}

#[test]
fn fork_is_reported_and_the_witness_dropped() {
    let mut supervisor = supervisor(vec![block_a()], time_at(51));
    supervisor.add_witness(witness(2, vec![block_a()], time_at(51)));
    supervisor.add_witness(witness(3, vec![block_b()], time_at(51)));
    supervisor.add_witness(witness(4, vec![block_a()], time_at(51)));
    let block = supervisor.verify_to_height(50).unwrap();
    assert_eq!(block, block_a());
    let reports = &supervisor.reporter.0;
    assert_eq!(reports.len(), 1);
    assert_eq!(reports[0].0.primary, block_a().signed_header);
    assert_eq!(reports[0].0.witness, block_b().signed_header);
    assert_eq!(reports[0].0.ancestor.header.height, 40);
    assert_eq!(reports[0].1, PeerId::new([3; 20]));
    let left: Vec<PeerId> = supervisor.witnesses.iter().map(|w| w.client.peer).collect();
    assert_eq!(left, vec![PeerId::new([2; 20]), PeerId::new([4; 20])]);
    assert_eq!(supervisor.latest_trusted_block(), Some(block_a()));
}

#[test]
fn faulty_witness_is_dropped_without_report() {
    let mut bad = block_b();
    bad.signed_header.commit.block_id.hash = Digest::new([0; 32]);
    let mut supervisor = supervisor(vec![block_a()], time_at(51));
    supervisor.add_witness(witness(2, vec![bad], time_at(51)));
    assert_eq!(supervisor.verify_to_height(50), Ok(block_a()));
    assert_eq!(supervisor.reporter.0.len(), 0);
    assert_eq!(supervisor.witnesses.len(), 0);
}

#[test]
fn silent_witness_becomes_suspect_after_its_retries() {
    let mut supervisor = supervisor(
        vec![block_a(), full_block(51, &FOUR, &FOUR), full_block(52, &FOUR, &FOUR)],
        time_at(53),
    );
    let mut silent = witness(2, Vec::new(), time_at(53));
    silent.io.failure = Some(IoError::Timeout);
    silent.max_retry_attempts = 2;
    supervisor.add_witness(silent);
    assert!(supervisor.verify_to_height(50).is_ok());
    // the witness was asked once and twice again; then its budget was used up
    assert_eq!(supervisor.witnesses[0].client.io.requests.get(), 3);
    assert_eq!(
        supervisor.witnesses[0].state,
        PeerState { status: PeerStatus::Suspect, failures: 1 }
    );
    assert!(supervisor.verify_to_height(51).is_ok());
    assert_eq!(
        supervisor.witnesses[0].state,
        PeerState { status: PeerStatus::Suspect, failures: 2 }
    );
    assert_eq!(supervisor.witnesses.len(), 1);
}

#[test]
fn failing_primary_leaves_the_witnesses_alone() {
    let mut supervisor = supervisor(Vec::new(), time_at(51));
    supervisor.add_witness(witness(2, vec![block_b()], time_at(51)));
    assert_eq!(supervisor.verify_to_height(50), Err(Error::Io(IoError::InvalidHeight)));
    assert_eq!(supervisor.witnesses.len(), 1);
    assert_eq!(supervisor.witnesses[0].client.io.requests.get(), 0);
    assert_eq!(supervisor.verify_to_height(30), Err(Error::NoTrustedState));
}

#[test]
fn primary_that_repeats_an_invalid_block_is_faulty() {
    let mut bad = block_a();
    bad.signed_header.commit.block_id.hash = Digest::new([0; 32]);
    let mut supervisor = supervisor(vec![bad], time_at(51));
    assert_eq!(supervisor.primary_state, PeerState::new());
    assert!(matches!(
        supervisor.verify_to_height(50),
        Err(Error::InvalidLightBlock(VerificationError::InvalidCommitValue { .. }))
    ));
    assert_eq!(supervisor.primary_state.status, PeerStatus::Suspect);
    assert!(matches!(
        supervisor.verify_to_height(50),
        Err(Error::InvalidLightBlock(VerificationError::InvalidCommitValue { .. }))
    ));
    assert_eq!(supervisor.primary_state.status, PeerStatus::Faulty);
    let requests = supervisor.primary.io.requests.get();
    assert_eq!(supervisor.verify_to_height(50), Err(Error::FaultyPrimary));
    assert_eq!(supervisor.verify_to_highest(), Err(Error::FaultyPrimary));
    assert_eq!(supervisor.primary.io.requests.get(), requests);
}

#[test]
fn primary_that_does_not_answer_becomes_suspect() {
    let mut supervisor = supervisor(Vec::new(), time_at(51));
    supervisor.primary.io.failure = Some(IoError::Timeout);
    supervisor.primary.max_retry_attempts = 1;
    assert_eq!(supervisor.verify_to_height(50), Err(Error::Io(IoError::Timeout)));
    assert_eq!(supervisor.primary.io.requests.get(), 2);
    assert_eq!(supervisor.primary_state, PeerState { status: PeerStatus::Suspect, failures: 1 });
    assert_eq!(supervisor.verify_to_height(50), Err(Error::Io(IoError::Timeout)));
    assert_eq!(supervisor.primary_state, PeerState { status: PeerStatus::Suspect, failures: 2 });
    // an expired trusted block and a missing one say nothing of the peer
    assert_eq!(supervisor.verify_to_height(30), Err(Error::NoTrustedState));
    assert_eq!(supervisor.primary_state, PeerState { status: PeerStatus::Suspect, failures: 2 });
    supervisor.primary.io.failure = None;
    supervisor.primary.io.blocks.insert(50, block_a());
    assert_eq!(supervisor.verify_to_height(50), Ok(block_a()));
    assert_eq!(supervisor.primary_state, PeerState { status: PeerStatus::Suspect, failures: 0 });
}

#[test]
fn trusted_height_needs_no_primary_answer() {
    let mut supervisor = supervisor(Vec::new(), time_at(51));
    supervisor.primary.io.failure = Some(IoError::Timeout);
    assert_eq!(supervisor.verify_to_height(40), Ok(ancestor()));
    assert_eq!(supervisor.primary.io.requests.get(), 0);
}

#[test]
fn fate_follows_the_report() {
    let healthy = PeerState::new();
    let peer = PeerId::new([3; 20]);
    assert_eq!(
        fate_of(healthy, peer, WitnessReport::Agrees),
        Fate::Stays(PeerState { status: PeerStatus::Healthy, failures: 0 })
    );
    assert_eq!(
        fate_of(healthy, peer, WitnessReport::Unreachable(IoError::Timeout)),
        Fate::Stays(PeerState { status: PeerStatus::Suspect, failures: 1 })
    );
    let evidence = Evidence {
        primary: block_a().signed_header,
        witness: block_b().signed_header,
        ancestor: ancestor().signed_header,
    };
    assert_eq!(
        fate_of(healthy, peer, WitnessReport::Forked(evidence.clone())),
        Fate::Reported { evidence, peer }
    );
    assert_eq!(
        fate_of(healthy, peer, WitnessReport::Faulty(Error::NoTrustedState)),
        Fate::Dropped
    );
}

#[test]
fn every_fork_is_reported_with_its_peer_in_order() {
    let mut supervisor = supervisor(vec![block_a()], time_at(51));
    supervisor.add_witness(witness(2, vec![block_b()], time_at(51)));
    supervisor.add_witness(witness(3, vec![block_a()], time_at(51)));
    let mut bad = block_b();
    bad.signed_header.commit.block_id.hash = Digest::new([0; 32]);
    supervisor.add_witness(witness(4, vec![bad], time_at(51)));
    supervisor.add_witness(witness(5, vec![block_b()], time_at(51)));
    assert_eq!(supervisor.verify_to_height(50), Ok(block_a()));
    let accused: Vec<PeerId> = supervisor.reporter.0.iter().map(|(_, peer)| *peer).collect();
    assert_eq!(accused, vec![PeerId::new([2; 20]), PeerId::new([5; 20])]);
    for (evidence, _) in &supervisor.reporter.0 {
        assert_eq!(evidence.primary, block_a().signed_header);
        assert_eq!(evidence.witness, block_b().signed_header);
        assert_eq!(evidence.ancestor, ancestor().signed_header);
    }
    let left: Vec<PeerId> = supervisor.witnesses.iter().map(|w| w.client.peer).collect();
    assert_eq!(left, vec![PeerId::new([3; 20])]);
}

#[test]
fn supervisor_verifies_to_the_highest_block() {
    let mut supervisor = supervisor(vec![block_a()], time_at(51));
    supervisor.add_witness(witness(2, vec![block_a()], time_at(51)));
    assert_eq!(supervisor.verify_to_highest(), Ok(block_a()));
    assert_eq!(supervisor.witnesses.len(), 1);
}

#[test]
fn peer_state_follows_the_events() {
    let healthy = PeerState::new();
    assert_eq!(healthy, PeerState { status: PeerStatus::Healthy, failures: 0 });
    let once = healthy.after(PeerEvent::Unanswered);
    assert_eq!(once, PeerState { status: PeerStatus::Suspect, failures: 1 });
    let twice = once.after(PeerEvent::Unanswered);
    assert_eq!(twice, PeerState { status: PeerStatus::Suspect, failures: 2 });
    assert_eq!(
        twice.after(PeerEvent::Answered),
        PeerState { status: PeerStatus::Suspect, failures: 0 }
    );
    assert_eq!(healthy.after(PeerEvent::Answered), healthy);
    assert_eq!(
        once.after(PeerEvent::Misbehaved),
        PeerState { status: PeerStatus::Faulty, failures: 1 }
    );
    let faulty = PeerState { status: PeerStatus::Faulty, failures: u32::MAX };
    assert_eq!(faulty.after(PeerEvent::Unanswered), faulty);
    assert_eq!(
        faulty.after(PeerEvent::Answered),
        PeerState { status: PeerStatus::Faulty, failures: 0 }
    );
    let suspect = healthy.after(PeerEvent::SentInvalid);
    assert_eq!(suspect, PeerState { status: PeerStatus::Suspect, failures: 0 });
    assert_eq!(suspect.after(PeerEvent::SentInvalid).status, PeerStatus::Faulty);
    assert_eq!(faulty.after(PeerEvent::SentInvalid).status, PeerStatus::Faulty);
}

#[test]
fn verdict_is_settled_in_the_store() {
    let tally = VotingPowerTally { total: 3, tallied: 1, trust_threshold: TrustThreshold::one_third() };
    let short = VerificationError::NotEnoughTrust(tally);
    let wrong = VerificationError::DuplicateValidator(Address::new([1; 20]));
    let fresh = || {
        let mut store = MemoryStore::new();
        store.insert(trusted_at_10(), Status::Trusted);
        store.insert(full_block(11, &FOUR, &FOUR), Status::Unverified);
        store.insert(full_block(20, &FOUR, &FOUR), Status::Unverified);
        store
    };
    let mut store = fresh();
    assert_eq!(settle(&mut store, 20, 10, Verdict::Success), None);
    assert_eq!(store.get(20, Status::Trusted).map(|b| b.height()), Some(20));
    let mut store = fresh();
    assert_eq!(settle(&mut store, 20, 10, Verdict::NotEnoughTrust(short.clone())), None);
    assert_eq!(store.get(20, Status::Verified).map(|b| b.height()), Some(20));
    let mut store = fresh();
    assert_eq!(
        settle(&mut store, 11, 10, Verdict::NotEnoughTrust(short.clone())),
        Some(Error::CannotBisect(short))
    );
    assert_eq!(store.get(11, Status::Unverified).map(|b| b.height()), Some(11));
    let mut store = fresh();
    assert_eq!(
        settle(&mut store, 20, 10, Verdict::Invalid(wrong.clone())),
        Some(Error::InvalidLightBlock(wrong))
    );
    assert_eq!(store.get(20, Status::Failed).map(|b| b.height()), Some(20));
    assert_eq!(store.get(10, Status::Trusted), Some(&trusted_at_10()));
    // the height that follows the last height is none
    let mut store = fresh();
    assert_eq!(settle(&mut store, 0, u64::MAX, Verdict::Success), None);
}

#[test]
fn trusted_block_expires_when_its_period_does_not_reach_past_now() {
    let anchor = trusted_at_10();
    let mut short = options();
    short.trusting_period = Duration(5);
    assert_eq!(expiry_at(&anchor, &short, Time(10 * SECOND + 4)), None);
    assert_eq!(
        expiry_at(&anchor, &short, Time(10 * SECOND + 5)),
        Some(Error::InvalidLightBlock(VerificationError::Expired {
            trusted_time: time_at(10),
            now: Time(10 * SECOND + 5),
        }))
    );
    short.trusting_period = Duration(u64::MAX);
    assert_eq!(expiry_at(&anchor, &short, Time(u64::MAX)), None);
}

#[test]
fn round_ends_with_expiry_before_anything_is_fetched() {
    let peer = Peer::serving(vec![full_block(11, &FOUR, &FOUR)]);
    let mut client = client(peer, trusted_at_10(), time_at(12));
    let late = Time(10 * SECOND + 1_000 * SECOND);
    assert_eq!(
        client.round(11, late),
        Some(Err(Error::InvalidLightBlock(VerificationError::Expired {
            trusted_time: time_at(10),
            now: late,
        })))
    );
    assert_eq!(client.io.requests.get(), 0);
    assert_eq!(client.store.get(11, Status::Unverified), None);
    // a target that is trusted is given out whatever the time
    assert_eq!(client.round(10, late), Some(Ok(trusted_at_10())));
    assert_eq!(client.round(9, late), Some(Err(Error::NoTrustedState)));
    assert_eq!(client.io.requests.get(), 0);
}

#[test]
fn round_brings_the_work_closer_to_its_end() {
    let late = [(1, 10), (5, 45), (6, 45)];
    let heights: Vec<u64> = (11..=20).collect();
    let mut client = client(Peer::serving(chain(&heights, 18, &late)), trusted_at_10(), time_at(21));
    // the target cannot be trusted yet: it is kept as the pivot
    assert_eq!(client.round(20, time_at(21)), None);
    assert_eq!(client.store.get(20, Status::Verified).map(|b| b.height()), Some(20));
    // the midpoint can
    assert_eq!(client.round(20, time_at(21)), None);
    assert_eq!(client.store.get(15, Status::Trusted).map(|b| b.height()), Some(15));
    assert_eq!(*client.io.asked.borrow(), vec![AtHeight::Exact(20), AtHeight::Exact(15)]);
}

#[test]
fn fetched_block_is_kept_as_unverified() {
    let mut store = MemoryStore::new();
    assert_eq!(keep_fetched(&mut store, 11, Ok(full_block(11, &FOUR, &FOUR))), Ok(()));
    assert_eq!(store.get(11, Status::Unverified), Some(&full_block(11, &FOUR, &FOUR)));
    assert_eq!(
        keep_fetched(&mut store, 12, Ok(full_block(13, &FOUR, &FOUR))),
        Err(Error::Io(IoError::InvalidHeight))
    );
    assert_eq!(store.get(13, Status::Unverified), None);
    assert_eq!(store.get(12, Status::Unverified), None);
    assert_eq!(
        keep_fetched(&mut store, 12, Err(IoError::Timeout)),
        Err(Error::Io(IoError::Timeout))
    );
    // a trusted block is not displaced
    store.update(11, Status::Verified);
    store.update(11, Status::Trusted);
    assert_eq!(keep_fetched(&mut store, 11, Ok(full_block(11, &LATER, &LATER))), Ok(()));
    assert_eq!(store.get(11, Status::Trusted), Some(&full_block(11, &FOUR, &FOUR)));
}

#[test]
fn outcomes_tell_of_the_primary() {
    let tally = VotingPowerTally { total: 3, tallied: 1, trust_threshold: TrustThreshold::one_third() };
    assert_eq!(event_of(&Ok(block_a())), Some(PeerEvent::Answered));
    assert_eq!(event_of(&Err(Error::Io(IoError::InvalidHeight))), Some(PeerEvent::Unanswered));
    assert_eq!(
        event_of(&Err(Error::InvalidLightBlock(VerificationError::DuplicateValidator(
            Address::new([1; 20])
        )))),
        Some(PeerEvent::SentInvalid)
    );
    assert_eq!(
        event_of(&Err(Error::InvalidLightBlock(VerificationError::Expired {
            trusted_time: Time(1),
            now: Time(2)
        }))),
        None
    );
    assert_eq!(
        event_of(&Err(Error::CannotBisect(VerificationError::NotEnoughTrust(tally)))),
        Some(PeerEvent::SentInvalid)
    );
    assert_eq!(event_of(&Err(Error::NoTrustedState)), None);
    assert_eq!(event_of(&Err(Error::Terminated)), None);
}
