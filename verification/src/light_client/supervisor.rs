//! The supervisor: a primary light client and its witnesses. It has the
//! primary verify, has the witnesses cross-check what the primary found, and
//! reports the forks that show.

use crate::light_client::client::{
    chain_of_trust, failure, lemma_trusted_height, outcome_for_highest, trusted_kept, LightClient,
};
use crate::light_client::errors::{Error, IoError, VerificationError};
use crate::light_client::fork_detector::{
    conflicting, examine_witness, weighed, Evidence, EvidenceView, WitnessReport,
};
use crate::light_client::hasher::Hasher;
use crate::light_client::io::{asked_with_retries, extends, AtHeight, Exchanges, Io};
use crate::light_client::scheduler::trusted_height;
use crate::light_client::store::{highest_at, holds, Entries, LightStore};
use crate::light_client::types::{Digest, Height, LightBlock, PeerId, Status};
use crate::light_client::verdict::{Clock, Verifier};
use vstd::prelude::*;

verus! {

/// How the supervisor regards a peer.
#[derive(Clone, Copy, Debug, PartialEq, Eq, Structural)]
pub enum PeerStatus {
    /// The peer answers, and nothing speaks against it.
    Healthy,
    /// The peer failed to answer though it was asked as often as the retry
    /// budget allows, or it sent an invalid block.
    Suspect,
    /// The peer held a block that does not stand verification, or one that
    /// gave evidence of a fork.
    Faulty,
}

/// What the supervisor learns of a peer from one request.
#[derive(Clone, Copy, Debug, PartialEq, Eq, Structural)]
pub enum PeerEvent {
    /// The peer answered.
    Answered,
    /// The peer did not answer, though it was asked as often as the retry
    /// budget allows.
    Unanswered,
    /// The peer answered with a block that does not stand verification.
    SentInvalid,
    /// The peer vouched for a block that gives evidence of a fork, or for a
    /// chain that does not stand verification.
    Misbehaved,
}

/// What the supervisor keeps of a peer: how it regards it, and how many
/// requests in a row the peer failed to answer.
#[derive(Clone, Copy, Debug, PartialEq, Eq, Structural)]
pub struct PeerState {
    pub status: PeerStatus,
    pub failures: u32,
}

/// The state of a peer after an event. A peer that answers has its count of
/// failures reset. A healthy peer that fails to answer becomes suspect: the
/// retry budget was used up on the request. A peer that sends an invalid
/// block becomes suspect, and faulty where it was suspect already. A peer
/// that misbehaves becomes faulty. No peer ever returns to a better state.
pub open spec fn peer_after(state: PeerState, event: PeerEvent) -> PeerState {
    match event {
        PeerEvent::Answered => PeerState { status: state.status, failures: 0 },
        PeerEvent::Unanswered => PeerState {
            status: if state.status is Healthy {
                PeerStatus::Suspect
            } else {
                state.status
            },
            failures: if state.failures < u32::MAX {
                (state.failures + 1) as u32
            } else {
                state.failures
            },
        },
        PeerEvent::SentInvalid => PeerState {
            status: if state.status is Healthy {
                PeerStatus::Suspect
            } else {
                PeerStatus::Faulty
            },
            failures: state.failures,
        },
        PeerEvent::Misbehaved => PeerState { status: PeerStatus::Faulty, failures: state.failures },
    }
}

/// The rank of a status: the higher, the worse.
pub open spec fn badness(status: PeerStatus) -> nat {
    match status {
        PeerStatus::Healthy => 0,
        PeerStatus::Suspect => 1,
        PeerStatus::Faulty => 2,
    }
}

impl PeerState {
    /// The state of a peer of which nothing is known yet.
    pub fn new() -> (state: PeerState)
        ensures
            state == (PeerState { status: PeerStatus::Healthy, failures: 0 }),
    {
        PeerState { status: PeerStatus::Healthy, failures: 0 }
    }

    /// The state after `event`.
    pub fn after(self, event: PeerEvent) -> (next: PeerState)
        ensures
            next == peer_after(self, event),
            badness(self.status) <= badness(next.status),
    {
        match event {
            PeerEvent::Answered => PeerState { status: self.status, failures: 0 },
            PeerEvent::Unanswered => {
                let failures: u32 = if self.failures < u32::MAX {
                    self.failures + 1
                } else {
                    self.failures
                };
                let status = match self.status {
                    PeerStatus::Healthy => PeerStatus::Suspect,
                    other => other,
                };
                PeerState { status, failures }
            },
            PeerEvent::SentInvalid => {
                let status = match self.status {
                    PeerStatus::Healthy => PeerStatus::Suspect,
                    _ => PeerStatus::Faulty,
                };
                PeerState { status, failures: self.failures }
            },
            PeerEvent::Misbehaved => PeerState {
                status: PeerStatus::Faulty,
                failures: self.failures,
            },
        }
    }
}

/// What the outcome of a verification tells of the primary peer: that it
/// answered, that it did not, or that it sent a block that does not stand
/// verification. An expired trusted block and a want of a trusted block tell
/// nothing of the peer.
pub open spec fn primary_event(outcome: Result<LightBlock, Error>) -> Option<PeerEvent> {
    match outcome {
        Ok(_) => Some(PeerEvent::Answered),
        Err(Error::Io(_)) => Some(PeerEvent::Unanswered),
        Err(Error::InvalidLightBlock(e)) => if e is Expired {
            None
        } else {
            Some(PeerEvent::SentInvalid)
        },
        Err(Error::CannotBisect(_)) => Some(PeerEvent::SentInvalid),
        Err(_) => None,
    }
}

/// The state of the primary peer after a verification with the given
/// outcome.
pub open spec fn primary_after(state: PeerState, outcome: Result<LightBlock, Error>) -> PeerState {
    match primary_event(outcome) {
        Some(event) => peer_after(state, event),
        None => state,
    }
}

/// Tells what the outcome of a verification tells of the primary peer.
pub fn event_of(outcome: &Result<LightBlock, Error>) -> (event: Option<PeerEvent>)
    ensures
        event == primary_event(*outcome),
{
    match outcome {
        Ok(_) => Some(PeerEvent::Answered),
        Err(Error::Io(_)) => Some(PeerEvent::Unanswered),
        Err(Error::InvalidLightBlock(e)) => match e {
            VerificationError::Expired { .. } => None,
            _ => Some(PeerEvent::SentInvalid),
        },
        Err(Error::CannotBisect(_)) => Some(PeerEvent::SentInvalid),
        Err(_) => None,
    }
}

/// The states of a peer after a sequence of events.
pub open spec fn peer_after_all(state: PeerState, events: Seq<PeerEvent>) -> PeerState
    decreases events.len(),
{
    if events.len() == 0 {
        state
    } else {
        peer_after(peer_after_all(state, events.drop_last()), events.last())
    }
}

/// Whatever happens, a peer never returns to a better state: a suspect peer
/// is never healthy again, and a faulty peer stays faulty.
pub proof fn law_peer_never_recovers(state: PeerState, events: Seq<PeerEvent>)
    ensures
        badness(state.status) <= badness(peer_after_all(state, events).status),
    decreases events.len(),
{
    if events.len() > 0 {
        law_peer_never_recovers(state, events.drop_last());
    }
}

/// What becomes of a witness after it was examined.
#[derive(Clone, Debug, PartialEq, Eq)]
pub enum Fate {
    /// The witness stays, and its peer is now in the given state.
    Stays(PeerState),
    /// The evidence is reported against the peer, and the witness is
    /// dropped.
    Reported { evidence: Evidence, peer: PeerId },
    /// The witness is dropped.
    Dropped,
}

/// The fate of a witness whose peer is `peer`, in the state `state`, by
/// what its examination found. A witness that agrees stays, and has
/// answered. A witness that could not be asked stays, and has not answered.
/// A witness that holds a verified block of its own is reported with the
/// evidence and dropped. A witness whose block does not stand verification
/// is dropped.
pub open spec fn fate(state: PeerState, peer: PeerId, report: WitnessReport) -> Fate {
    match report {
        WitnessReport::Agrees => Fate::Stays(peer_after(state, PeerEvent::Answered)),
        WitnessReport::Unreachable(_) => Fate::Stays(peer_after(state, PeerEvent::Unanswered)),
        WitnessReport::Forked(evidence) => Fate::Reported { evidence, peer },
        WitnessReport::Faulty(_) => Fate::Dropped,
    }
}

/// Tells the fate of a witness by what its examination found.
pub fn fate_of(state: PeerState, peer: PeerId, report: WitnessReport) -> (fate: Fate)
    ensures
        fate == self::fate(state, peer, report),
{
    match report {
        WitnessReport::Agrees => Fate::Stays(state.after(PeerEvent::Answered)),
        WitnessReport::Unreachable(_) => Fate::Stays(state.after(PeerEvent::Unanswered)),
        WitnessReport::Forked(evidence) => Fate::Reported { evidence, peer },
        WitnessReport::Faulty(_) => Fate::Dropped,
    }
}

/// What has been handed to a reporter: evidence, each with the peer that
/// it speaks against.
pub type Submissions = Seq<(EvidenceView, PeerId)>;

/// Takes evidence of forks to where it is acted on.
pub trait EvidenceReporter {
    /// The evidence that has been handed to the reporter, first to last.
    spec fn submitted(&self) -> Submissions;

    /// Reports `evidence` against `peer`. Answers with the hash of the
    /// transaction that carries the report, or with the reason why it could
    /// not be sent.
    fn report(&mut self, evidence: &Evidence, peer: PeerId) -> (outcome: Result<Digest, IoError>)
        ensures
            final(self).submitted() == old(self).submitted().push((evidence@, peer)),
    ;
}

/// A witness: a light client with the state that the supervisor keeps of its
/// peer.
pub struct Witness<I: Io, V: Verifier, S: LightStore, K: Clock> {
    pub client: LightClient<I, V, S, K>,
    pub state: PeerState,
}

/// The witness was asked for its block at the height of the block
/// `verified`, in the exchanges up to `asked`, and `report` is what was made
/// of its answer, with its store as `store_after` in the end. Evidence of a
/// fork holds the primary's header and the ancestor's, and two headers that
/// do not hash alike.
pub open spec fn questioning<I: Io, V: Verifier, S: LightStore, K: Clock, H: Hasher>(
    hasher: H,
    verified: LightBlock,
    ancestor: LightBlock,
    witness: Witness<I, V, S, K>,
    report: WitnessReport,
    asked: Exchanges,
    store_after: Entries,
) -> bool {
    &&& asked_with_retries(
        witness.client.io.exchanges(),
        asked,
        witness.client.peer,
        AtHeight::Exact(verified@.height()),
        witness.client.max_retry_attempts,
        asked.last().answer,
    )
    &&& weighed(
        hasher,
        verified,
        ancestor,
        asked.last().answer,
        witness.client.store.entries(),
        store_after,
        report,
    )
    &&& report matches WitnessReport::Forked(evidence) ==> {
        &&& conflicting(hasher, evidence@)
        &&& evidence@.primary == verified@.signed_header
        &&& evidence@.ancestor == ancestor@.signed_header
    }
}

/// The witness was examined against the block `verified`, and `report` is
/// what its examination found.
pub open spec fn questioned<I: Io, V: Verifier, S: LightStore, K: Clock, H: Hasher>(
    hasher: H,
    verified: LightBlock,
    ancestor: LightBlock,
    witness: Witness<I, V, S, K>,
    report: WitnessReport,
) -> bool {
    exists|asked: Exchanges, store_after: Entries| #[trigger]
        questioning(hasher, verified, ancestor, witness, report, asked, store_after)
}

/// The witness `after` is the witness `before` after an examination that
/// found `report` and let it stay: the same peer, options, retry budget and
/// verifier, every block that it trusted still trusted, its exchanges and
/// its store as the examination left them, and the state of its peer as its
/// fate says.
pub open spec fn kept_on<I: Io, V: Verifier, S: LightStore, K: Clock, H: Hasher>(
    hasher: H,
    verified: LightBlock,
    ancestor: LightBlock,
    before: Witness<I, V, S, K>,
    after: Witness<I, V, S, K>,
    report: WitnessReport,
) -> bool {
    &&& after.client.peer == before.client.peer
    &&& after.client.options == before.client.options
    &&& after.client.max_retry_attempts == before.client.max_retry_attempts
    &&& after.client.verifier == before.client.verifier
    &&& trusted_kept(before.client.store.entries(), after.client.store.entries())
    &&& exists|asked: Exchanges| #[trigger]
        questioning(
            hasher,
            verified,
            ancestor,
            before,
            report,
            asked,
            after.client.store.entries(),
        ) && extends(asked, after.client.io.exchanges())
    &&& fate(before.state, before.client.peer, report) == Fate::Stays(after.state)
}

/// What has been submitted to the reporter after the first `n` witnesses
/// were examined: for every witness whose examination found a fork, in the
/// witnesses' order, the evidence with the witness's peer.
pub open spec fn submissions_after<I: Io, V: Verifier, S: LightStore, K: Clock>(
    before: Submissions,
    witnesses: Seq<Witness<I, V, S, K>>,
    reports: Seq<WitnessReport>,
    n: int,
) -> Submissions
    decreases n,
{
    if n <= 0 {
        before
    } else {
        let earlier = submissions_after(before, witnesses, reports, n - 1);
        match reports[n - 1] {
            WitnessReport::Forked(evidence) => earlier.push(
                (evidence@, witnesses[n - 1].client.peer),
            ),
            _ => earlier,
        }
    }
}

/// The number of forks that the first `n` examinations found.
pub open spec fn forks_among(reports: Seq<WitnessReport>, n: int) -> nat
    decreases n,
{
    if n <= 0 {
        0
    } else {
        forks_among(reports, n - 1) + if reports[n - 1] is Forked {
            1nat
        } else {
            0nat
        }
    }
}

/// The witnesses `before` were cross-checked against the block `verified`,
/// which the primary verified from `ancestor`. Every witness was examined,
/// in order, and `reports` holds what was found of each. The witnesses
/// `after` are those whose fate was to stay, in their order, as their
/// examinations left them: `origin` tells for each where it stood before.
/// For every witness that was found forked, and for no other, the evidence
/// was submitted to the reporter with the witness's peer.
pub open spec fn cross_checked<I: Io, V: Verifier, S: LightStore, K: Clock, H: Hasher>(
    hasher: H,
    verified: LightBlock,
    ancestor: LightBlock,
    before: Seq<Witness<I, V, S, K>>,
    after: Seq<Witness<I, V, S, K>>,
    submitted_before: Submissions,
    submitted_after: Submissions,
    reports: Seq<WitnessReport>,
    origin: Seq<int>,
) -> bool {
    &&& reports.len() == before.len()
    &&& forall|j: int|
        0 <= j < before.len() ==> questioned(
            hasher,
            verified,
            ancestor,
            before[j],
            #[trigger] reports[j],
        )
    &&& origin.len() == after.len()
    &&& forall|k: int| 0 <= k < origin.len() ==> 0 <= #[trigger] origin[k] < before.len()
    &&& forall|k1: int, k2: int| 0 <= k1 < k2 < origin.len() ==> origin[k1] < origin[k2]
    &&& forall|k: int|
        0 <= k < after.len() ==> kept_on(
            hasher,
            verified,
            ancestor,
            before[origin[k]],
            #[trigger] after[k],
            reports[origin[k]],
        )
    &&& forall|j: int|
        0 <= j < before.len() && fate(before[j].state, before[j].client.peer, #[trigger] reports[j])
            is Stays ==> stands_at(origin, j)
    &&& submitted_after == submissions_after(
        submitted_before,
        before,
        reports,
        before.len() as int,
    )
}

/// One of the witnesses that stayed stood at `j` before.
pub open spec fn stands_at(origin: Seq<int>, j: int) -> bool {
    exists|k: int| 0 <= k < origin.len() && #[trigger] origin[k] == j
}

/// What is submitted depends on the reports of the witnesses examined so
/// far, and on no later one.
proof fn lemma_submissions_so_far<I: Io, V: Verifier, S: LightStore, K: Clock>(
    before: Submissions,
    witnesses: Seq<Witness<I, V, S, K>>,
    reports: Seq<WitnessReport>,
    report: WitnessReport,
    n: int,
)
    requires
        0 <= n <= reports.len(),
    ensures
        submissions_after(before, witnesses, reports.push(report), n) == submissions_after(
            before,
            witnesses,
            reports,
            n,
        ),
        forks_among(reports.push(report), n) == forks_among(reports, n),
    decreases n,
{
    if n > 0 {
        lemma_submissions_so_far(before, witnesses, reports, report, n - 1);
        assert(reports.push(report)[n - 1] == reports[n - 1]);
    }
}

/// Submissions only grow as witnesses are examined.
proof fn lemma_submissions_grow<I: Io, V: Verifier, S: LightStore, K: Clock>(
    before: Submissions,
    witnesses: Seq<Witness<I, V, S, K>>,
    reports: Seq<WitnessReport>,
    m: int,
    n: int,
)
    requires
        0 <= m <= n,
    ensures
        submissions_after(before, witnesses, reports, m).len() <= submissions_after(
            before,
            witnesses,
            reports,
            n,
        ).len(),
        forall|i: int|
            0 <= i < submissions_after(before, witnesses, reports, m).len()
                ==> #[trigger] submissions_after(before, witnesses, reports, n)[i]
                == submissions_after(before, witnesses, reports, m)[i],
        submissions_after(before, witnesses, reports, n).len() == submissions_after(
            before,
            witnesses,
            reports,
            m,
        ).len() + forks_among(reports, n) - forks_among(reports, m),
    decreases n - m,
{
    if m < n {
        lemma_submissions_grow(before, witnesses, reports, m, n - 1);
    }
}

/// A fork is reported, and the witness dropped. Where witnesses were
/// cross-checked and the examination of the witness that stood at `j` found
/// a fork, the evidence was submitted to the reporter with that witness's
/// peer, and the witness is not among those that stayed. Nothing was
/// submitted but for forks: the submissions grew by the number of forks
/// that were found, so that a witness whose block did not stand
/// verification is dropped without a report.
pub proof fn law_fork_is_reported_and_the_witness_dropped<
    I: Io,
    V: Verifier,
    S: LightStore,
    K: Clock,
    H: Hasher,
>(
    hasher: H,
    verified: LightBlock,
    ancestor: LightBlock,
    before: Seq<Witness<I, V, S, K>>,
    after: Seq<Witness<I, V, S, K>>,
    submitted_before: Submissions,
    submitted_after: Submissions,
    reports: Seq<WitnessReport>,
    origin: Seq<int>,
    j: int,
)
    requires
        cross_checked(
            hasher,
            verified,
            ancestor,
            before,
            after,
            submitted_before,
            submitted_after,
            reports,
            origin,
        ),
        0 <= j < before.len(),
    ensures
        submitted_after.len() == submitted_before.len() + forks_among(
            reports,
            before.len() as int,
        ),
        forall|i: int| 0 <= i < submitted_before.len() ==> submitted_after[i] == submitted_before[i],
        reports[j] matches WitnessReport::Forked(evidence) ==> {
            &&& exists|i: int|
                submitted_before.len() <= i < submitted_after.len() && #[trigger] submitted_after[i]
                    == (evidence@, before[j].client.peer)
            &&& !stands_at(origin, j)
            &&& conflicting(hasher, evidence@)
            &&& evidence@.primary == verified@.signed_header
            &&& evidence@.ancestor == ancestor@.signed_header
        },
        !(reports[j] is Agrees || reports[j] is Unreachable) ==> !stands_at(origin, j),
        reports[j] is Agrees || reports[j] is Unreachable ==> stands_at(origin, j),
{
    let n = before.len() as int;
    lemma_submissions_grow(submitted_before, before, reports, 0, n);
    lemma_submissions_grow(submitted_before, before, reports, 0, j);
    lemma_submissions_grow(submitted_before, before, reports, j + 1, n);
    if stands_at(origin, j) {
        let k = choose|k: int| 0 <= k < origin.len() && #[trigger] origin[k] == j;
        assert(kept_on(hasher, verified, ancestor, before[origin[k]], after[k], reports[origin[k]]));
    }
    assert(questioned(hasher, verified, ancestor, before[j], reports[j]));
    match reports[j] {
        WitnessReport::Forked(evidence) => {
            let at_j = submissions_after(submitted_before, before, reports, j);
            let with_j = submissions_after(submitted_before, before, reports, j + 1);
            assert(with_j == at_j.push((evidence@, before[j].client.peer)));
            let i = at_j.len() as int;
            assert(with_j[i] == (evidence@, before[j].client.peer));
            assert(submitted_after[i] == with_j[i]);
        },
        _ => {},
    }
}

/// The supervisor of a primary light client and its witnesses.
pub struct Supervisor<
    I: Io,
    V: Verifier,
    S: LightStore,
    K: Clock,
    H: Hasher,
    R: EvidenceReporter,
> {
    pub primary: LightClient<I, V, S, K>,
    /// How the supervisor regards the primary's peer.
    pub primary_state: PeerState,
    pub witnesses: Vec<Witness<I, V, S, K>>,
    pub hasher: H,
    pub reporter: R,
}

impl<
    I: Io,
    V: Verifier,
    S: LightStore,
    K: Clock,
    H: Hasher,
    R: EvidenceReporter,
> Supervisor<I, V, S, K, H, R> {
    /// A supervisor of `primary`, with no witness yet.
    pub fn new(primary: LightClient<I, V, S, K>, hasher: H, reporter: R) -> (supervisor: Self)
        ensures
            supervisor.primary == primary,
            supervisor.primary_state == (PeerState { status: PeerStatus::Healthy, failures: 0 }),
            supervisor.witnesses@.len() == 0,
            supervisor.hasher == hasher,
            supervisor.reporter == reporter,
    {
        Supervisor {
            primary,
            primary_state: PeerState::new(),
            witnesses: Vec::new(),
            hasher,
            reporter,
        }
    }

    /// Adds a witness, of which nothing is known yet.
    pub fn add_witness(&mut self, client: LightClient<I, V, S, K>)
        ensures
            final(self).primary == old(self).primary,
            final(self).primary_state == old(self).primary_state,
            final(self).hasher == old(self).hasher,
            final(self).reporter == old(self).reporter,
            final(self).witnesses@ == old(self).witnesses@.push(
                Witness { client, state: PeerState { status: PeerStatus::Healthy, failures: 0 } },
            ),
    {
        self.witnesses.push(Witness { client, state: PeerState::new() });
    }

    /// The highest block that the primary trusts.
    pub fn latest_trusted_block(&self) -> (found: Option<LightBlock>)
        ensures
            match found {
                Some(block) => holds(
                    self.primary.store.entries(),
                    block@.height(),
                    Status::Trusted,
                ) && block@ == self.primary.store.entries()[block@.height()].block@,
                None => forall|h: Height| !#[trigger] holds(
                    self.primary.store.entries(),
                    h,
                    Status::Trusted,
                ),
            },
    {
        self.primary.latest_trusted()
    }

    /// Has every witness examined against the block that the primary has
    /// verified from `ancestor`, in their order. A witness that agrees or
    /// cannot be asked stays, with its state brought up to date. A witness
    /// that holds a verified block of its own has the evidence reported
    /// against it and is dropped, and so is a witness whose block does not
    /// stand verification. Returns the number of forks that showed.
    fn cross_check(&mut self, verified: &LightBlock, ancestor: &LightBlock) -> (forks: usize)
        ensures
            final(self).primary == old(self).primary,
            final(self).primary_state == old(self).primary_state,
            final(self).hasher == old(self).hasher,
            exists|reports: Seq<WitnessReport>, origin: Seq<int>|
                {
                    &&& #[trigger] cross_checked(
                        old(self).hasher,
                        *verified,
                        *ancestor,
                        old(self).witnesses@,
                        final(self).witnesses@,
                        old(self).reporter.submitted(),
                        final(self).reporter.submitted(),
                        reports,
                        origin,
                    )
                    &&& forks == forks_among(reports, reports.len() as int)
                },
    {
        let ghost start = self.witnesses@;
        let ghost submitted = self.reporter.submitted();
        let count: usize = self.witnesses.len();
        let mut forks: usize = 0;
        let mut i: usize = 0;
        let ghost mut dropped: int = 0;
        let ghost mut origin: Seq<int> = Seq::empty();
        let ghost mut reports: Seq<WitnessReport> = Seq::empty();
        while i < self.witnesses.len()
            invariant
                self.primary == old(self).primary,
                self.primary_state == old(self).primary_state,
                self.hasher == old(self).hasher,
                start == old(self).witnesses@,
                submitted == old(self).reporter.submitted(),
                i <= self.witnesses@.len(),
                0 <= dropped,
                self.witnesses@.len() + dropped == start.len(),
                start.len() == count,
                reports.len() == i + dropped,
                forks == forks_among(reports, reports.len() as int),
                forks <= reports.len(),
                forall|j: int|
                    0 <= j < reports.len() ==> questioned(
                        self.hasher,
                        *verified,
                        *ancestor,
                        start[j],
                        #[trigger] reports[j],
                    ),
                origin.len() == i,
                forall|k: int| 0 <= k < i ==> 0 <= #[trigger] origin[k] < i + dropped,
                forall|k1: int, k2: int| 0 <= k1 < k2 < i ==> origin[k1] < origin[k2],
                forall|k: int|
                    0 <= k < i ==> kept_on(
                        self.hasher,
                        *verified,
                        *ancestor,
                        start[origin[k]],
                        #[trigger] self.witnesses@[k],
                        reports[origin[k]],
                    ),
                forall|j: int|
                    0 <= j < reports.len() && fate(
                        start[j].state,
                        start[j].client.peer,
                        #[trigger] reports[j],
                    ) is Stays ==> stands_at(origin, j),
                self.reporter.submitted() == submissions_after(
                    submitted,
                    start,
                    reports,
                    reports.len() as int,
                ),
                forall|k: int|
                    i <= k < self.witnesses@.len() ==> #[trigger] self.witnesses@[k] == start[k
                        + dropped],
            decreases self.witnesses@.len() - i,
        {
            let mut witness = self.witnesses.remove(i);
            let ghost was = witness;
            let ghost place = i + dropped;
            assert(was == start[place]);
            let report = examine_witness(&mut witness.client, &self.hasher, verified, ancestor);
            let ghost found = report;
            let ghost asked = choose|asked: Exchanges|
                {
                    &&& #[trigger] asked_with_retries(
                        was.client.io.exchanges(),
                        asked,
                        was.client.peer,
                        AtHeight::Exact(verified@.height()),
                        was.client.max_retry_attempts,
                        asked.last().answer,
                    )
                    &&& extends(asked, witness.client.io.exchanges())
                    &&& weighed(
                        self.hasher,
                        *verified,
                        *ancestor,
                        asked.last().answer,
                        was.client.store.entries(),
                        witness.client.store.entries(),
                        report,
                    )
                };
            proof {
                assert(questioning(
                    self.hasher,
                    *verified,
                    *ancestor,
                    was,
                    found,
                    asked,
                    witness.client.store.entries(),
                ));
                assert(questioned(self.hasher, *verified, *ancestor, was, found));
                lemma_submissions_so_far(submitted, start, reports, found, place);
                assert forall|k: int| 0 <= k < i implies stands_at(origin.push(place), origin[k])
                    && stands_at(origin, origin[k]) by {
                    assert(origin.push(place)[k] == origin[k]);
                }
            }
            let ghost reports_before = reports;
            let ghost origin_before = origin;
            match fate_of(witness.state, witness.client.peer, report) {
                Fate::Stays(state) => {
                    witness.state = state;
                    proof {
                        reports = reports.push(found);
                        origin = origin.push(place);
                        assert(origin[i as int] == place);
                        assert(stands_at(origin, place));
                        assert(kept_on(
                            self.hasher,
                            *verified,
                            *ancestor,
                            was,
                            witness,
                            found,
                        ));
                        assert forall|j: int|
                            0 <= j < reports.len() && fate(
                                start[j].state,
                                start[j].client.peer,
                                #[trigger] reports[j],
                            ) is Stays implies stands_at(origin, j) by {
                            if j < place {
                                assert(reports_before[j] == reports[j]);
                                assert(stands_at(origin_before, j));
                                let k = choose|k: int|
                                    0 <= k < origin_before.len() && #[trigger] origin_before[k]
                                        == j;
                                assert(origin[k] == j);
                            }
                        }
                    }
                    self.witnesses.insert(i, witness);
                    i += 1;
                },
                Fate::Reported { evidence, peer } => {
                    let sent = self.reporter.report(&evidence, peer);
                    forks = forks + 1;
                    proof {
                        reports = reports.push(found);
                        dropped = dropped + 1;
                        assert forall|j: int|
                            0 <= j < reports.len() && fate(
                                start[j].state,
                                start[j].client.peer,
                                #[trigger] reports[j],
                            ) is Stays implies stands_at(origin, j) by {
                            if j < place {
                                assert(reports_before[j] == reports[j]);
                            }
                        }
                    }
                },
                Fate::Dropped => {
                    proof {
                        reports = reports.push(found);
                        dropped = dropped + 1;
                        assert forall|j: int|
                            0 <= j < reports.len() && fate(
                                start[j].state,
                                start[j].client.peer,
                                #[trigger] reports[j],
                            ) is Stays implies stands_at(origin, j) by {
                            if j < place {
                                assert(reports_before[j] == reports[j]);
                            }
                        }
                    }
                },
            }
        }
        proof {
            assert(cross_checked(
                self.hasher,
                *verified,
                *ancestor,
                start,
                self.witnesses@,
                submitted,
                self.reporter.submitted(),
                reports,
                origin,
            ));
        }
        forks
    }

    /// Takes note of what the outcome of a verification tells of the
    /// primary peer, and, where the primary succeeded, has the witnesses
    /// cross-check its block.
    fn conclude(
        &mut self,
        outcome: Result<LightBlock, Error>,
        ancestor: Option<LightBlock>,
    ) -> (returned: Result<LightBlock, Error>)
        ensures
            returned == outcome,
            final(self).primary == old(self).primary,
            final(self).hasher == old(self).hasher,
            final(self).primary_state == primary_after(old(self).primary_state, outcome),
            outcome is Err || ancestor is None ==> final(self).witnesses@ == old(self).witnesses@
                && final(self).reporter.submitted() == old(self).reporter.submitted(),
            outcome is Ok && ancestor is Some ==> exists|
                reports: Seq<WitnessReport>,
                origin: Seq<int>,
            | #[trigger]
                cross_checked(
                    old(self).hasher,
                    outcome->Ok_0,
                    ancestor->Some_0,
                    old(self).witnesses@,
                    final(self).witnesses@,
                    old(self).reporter.submitted(),
                    final(self).reporter.submitted(),
                    reports,
                    origin,
                ),
    {
        match event_of(&outcome) {
            Some(event) => {
                self.primary_state = self.primary_state.after(event);
            },
            None => {},
        }
        match (&outcome, &ancestor) {
            (Ok(block), Some(from)) => {
                let forks = self.cross_check(block, from);
            },
            _ => {},
        }
        outcome
    }

    /// Has the primary bring the block at `height` to trust, then has the
    /// witnesses cross-check it.
    ///
    /// Nothing is asked of a primary that has shown itself faulty: the call
    /// fails with `FaultyPrimary`, and with this error in no other case.
    /// Otherwise the call succeeds with the primary's block where the
    /// primary succeeds, whatever the witnesses hold, and so at once where
    /// the height is trusted already; it fails with the primary's error
    /// otherwise, and then no witness is asked. What holds of
    /// `LightClient::verify_to_target` holds of the primary, and the outcome
    /// is taken note of in the state of its peer. Where the call succeeds,
    /// the witnesses were cross-checked against the block, from the highest
    /// block that the primary trusted before at or below the height.
    pub fn verify_to_height(&mut self, height: Height) -> (outcome: Result<LightBlock, Error>)
        ensures
            final(self).primary.peer == old(self).primary.peer,
            final(self).primary.options == old(self).primary.options,
            final(self).primary.verifier == old(self).primary.verifier,
            final(self).hasher == old(self).hasher,
            old(self).primary_state.status is Faulty <==> outcome == Err::<LightBlock, Error>(
                Error::FaultyPrimary,
            ),
            old(self).primary_state.status is Faulty ==> {
                &&& final(self).primary_state == old(self).primary_state
                &&& final(self).primary.store.entries() == old(self).primary.store.entries()
                &&& final(self).primary.io.exchanges() == old(self).primary.io.exchanges()
            },
            !(old(self).primary_state.status is Faulty) ==> {
                &&& final(self).primary_state == primary_after(old(self).primary_state, outcome)
                &&& (trusted_height(old(self).primary.store.entries(), height) is None <==> outcome
                    == Err::<LightBlock, Error>(Error::NoTrustedState))
                &&& holds(old(self).primary.store.entries(), height, Status::Trusted)
                    ==> outcome is Ok
                &&& outcome matches Err(e) ==> failure(
                    old(self).primary.verifier,
                    old(self).primary.options,
                    old(self).primary.io.exchanges().len() as int,
                    final(self).primary.io.exchanges().len() as int,
                    final(self).primary.store.entries(),
                    e,
                )
            },
            trusted_kept(
                old(self).primary.store.entries(),
                final(self).primary.store.entries(),
            ),
            chain_of_trust(
                old(self).primary.verifier,
                old(self).primary.options,
                old(self).primary.store.entries(),
                final(self).primary.store.entries(),
            ),
            outcome matches Ok(block) ==> {
                &&& block@.height() == height
                &&& holds(final(self).primary.store.entries(), height, Status::Trusted)
                &&& block@ == final(self).primary.store.entries()[height].block@
            },
            outcome matches Ok(block) ==> exists|
                ancestor: LightBlock,
                reports: Seq<WitnessReport>,
                origin: Seq<int>,
            |
                {
                    &&& highest_at(
                        old(self).primary.store.entries(),
                        Status::Trusted,
                        height,
                        ancestor@.height(),
                    )
                    &&& ancestor@ == old(self).primary.store.entries()[ancestor@.height()].block@
                    &&& #[trigger] cross_checked(
                        old(self).hasher,
                        block,
                        ancestor,
                        old(self).witnesses@,
                        final(self).witnesses@,
                        old(self).reporter.submitted(),
                        final(self).reporter.submitted(),
                        reports,
                        origin,
                    )
                },
            outcome is Err ==> final(self).witnesses@ == old(self).witnesses@ && final(self).reporter.submitted() == old(self).reporter.submitted(),
    {
        if self.primary_state.status == PeerStatus::Faulty {
            return Err(Error::FaultyPrimary);
        }
        // The block that the primary trusts now is what the witnesses are
        // taken to agree on.
        let ghost known = self.primary.store.entries();
        let ancestor = match self.primary.store.highest_at_or_below(Status::Trusted, height) {
            Some(block) => Some(block.clone()),
            None => None,
        };
        let found = self.primary.verify_to_target(height);
        proof {
            if found is Ok && ancestor is None {
                lemma_trusted_height(known, height);
            }
        }
        self.conclude(found, ancestor)
    }

    /// Has the primary bring the highest block of its peer to trust, then
    /// has the witnesses cross-check it. What holds of `verify_to_height`
    /// holds of this call, for the height of the block that the peer
    /// answered with and from the highest block that the primary trusted
    /// before.
    pub fn verify_to_highest(&mut self) -> (outcome: Result<LightBlock, Error>)
        ensures
            final(self).primary.peer == old(self).primary.peer,
            final(self).primary.options == old(self).primary.options,
            final(self).primary.verifier == old(self).primary.verifier,
            final(self).hasher == old(self).hasher,
            old(self).primary_state.status is Faulty <==> outcome == Err::<LightBlock, Error>(
                Error::FaultyPrimary,
            ),
            old(self).primary_state.status is Faulty ==> {
                &&& final(self).primary_state == old(self).primary_state
                &&& final(self).primary.store.entries() == old(self).primary.store.entries()
                &&& final(self).primary.io.exchanges() == old(self).primary.io.exchanges()
            },
            !(old(self).primary_state.status is Faulty) ==> {
                &&& final(self).primary_state == primary_after(old(self).primary_state, outcome)
                &&& final(self).primary.io.exchanges().len() > old(self).primary.io.exchanges().len()
                &&& outcome matches Err(e) ==> failure(
                    old(self).primary.verifier,
                    old(self).primary.options,
                    old(self).primary.io.exchanges().len() as int,
                    final(self).primary.io.exchanges().len() as int,
                    final(self).primary.store.entries(),
                    e,
                )
            },
            trusted_kept(
                old(self).primary.store.entries(),
                final(self).primary.store.entries(),
            ),
            chain_of_trust(
                old(self).primary.verifier,
                old(self).primary.options,
                old(self).primary.store.entries(),
                final(self).primary.store.entries(),
            ),
            outcome matches Ok(block) ==> {
                &&& holds(final(self).primary.store.entries(), block@.height(), Status::Trusted)
                &&& block@ == final(self).primary.store.entries()[block@.height()].block@
            },
            outcome matches Ok(block) ==> exists|
                ancestor: LightBlock,
                reports: Seq<WitnessReport>,
                origin: Seq<int>,
            |
                {
                    &&& highest_at(
                        old(self).primary.store.entries(),
                        Status::Trusted,
                        u64::MAX,
                        ancestor@.height(),
                    )
                    &&& ancestor@ == old(self).primary.store.entries()[ancestor@.height()].block@
                    &&& #[trigger] cross_checked(
                        old(self).hasher,
                        block,
                        ancestor,
                        old(self).witnesses@,
                        final(self).witnesses@,
                        old(self).reporter.submitted(),
                        final(self).reporter.submitted(),
                        reports,
                        origin,
                    )
                },
            outcome is Err ==> final(self).witnesses@ == old(self).witnesses@ && final(self).reporter.submitted() == old(self).reporter.submitted(),
    {
        if self.primary_state.status == PeerStatus::Faulty {
            return Err(Error::FaultyPrimary);
        }
        let ghost known = self.primary.store.entries();
        let ancestor = match self.primary.store.latest(Status::Trusted) {
            Some(block) => Some(block.clone()),
            None => None,
        };
        let found = self.primary.verify_to_highest();
        proof {
            if found is Ok && ancestor is None {
                let asked = choose|asked: Exchanges|
                    {
                        &&& #[trigger] asked_with_retries(
                            old(self).primary.io.exchanges(),
                            asked,
                            self.primary.peer,
                            AtHeight::Highest,
                            self.primary.max_retry_attempts,
                            asked.last().answer,
                        )
                        &&& extends(asked, self.primary.io.exchanges())
                        &&& asked.last().answer is Err ==> self.primary.io.exchanges() == asked
                        &&& outcome_for_highest(
                            asked.last().answer,
                            known,
                            self.primary.store.entries(),
                            found,
                        )
                    };
                let target = asked.last().answer->Ok_0@.height();
                lemma_trusted_height(known, target);
                assert(false);
            }
        }
        self.conclude(found, ancestor)
    }
}

} // verus!
