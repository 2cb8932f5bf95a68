//! The fork detector: whether a witness holds another block than the
//! primary at the height that the primary has just verified.

use crate::light_client::client::{lemma_trusted_kept_on, trusted_kept, LightClient};
use crate::light_client::errors::{Error, IoError};
use crate::light_client::hasher::Hasher;
use crate::light_client::io::{
    asked_with_retries, extends, fetch_with_retries, lemma_extends_on, AtHeight, Exchanges, Io,
};
use crate::light_client::store::{holds, Entries, LightStore};
use crate::light_client::types::{Height, LightBlock, SignedHeader, SignedHeaderView, Status};
use crate::light_client::verdict::{Clock, Verifier};
use vstd::prelude::*;

verus! {

/// Proof of a fork: two headers of one height that do not hash alike, each
/// verified from the block that both peers agreed on.
#[derive(Clone, Debug, PartialEq, Eq)]
pub struct Evidence {
    /// The header that the primary verified.
    pub primary: SignedHeader,
    /// The header that the witness verified.
    pub witness: SignedHeader,
    /// The header of the last block that both peers agreed on.
    pub ancestor: SignedHeader,
}

/// Mathematical view of [`Evidence`].
pub struct EvidenceView {
    pub primary: SignedHeaderView,
    pub witness: SignedHeaderView,
    pub ancestor: SignedHeaderView,
}

impl View for Evidence {
    type V = EvidenceView;

    open spec fn view(&self) -> EvidenceView {
        EvidenceView { primary: self.primary@, witness: self.witness@, ancestor: self.ancestor@ }
    }
}

/// The evidence is of a fork: its two headers are of one height and do not
/// hash alike.
pub open spec fn conflicting<H: Hasher>(hasher: H, evidence: EvidenceView) -> bool {
    &&& evidence.primary.header.height == evidence.witness.header.height
    &&& hasher.header_digest(evidence.primary.header) != hasher.header_digest(
        evidence.witness.header,
    )
}

/// What the examination of a witness found.
#[derive(Clone, Debug, PartialEq, Eq)]
pub enum WitnessReport {
    /// The witness holds the same block as the primary.
    Agrees,
    /// The witness holds another block, which it verified from the common
    /// ancestor: a fork.
    Forked(Evidence),
    /// The witness holds another block, which does not stand verification:
    /// the witness is faulty.
    Faulty(Error),
    /// The witness could not be asked.
    Unreachable(IoError),
}

/// What is made of a witness that does not hold the primary's block, once
/// it has tried to verify its own from the common ancestor.
pub open spec fn judgement<H: Hasher>(
    hasher: H,
    verified: LightBlock,
    ancestor: LightBlock,
    attempt: Result<LightBlock, Error>,
    report: WitnessReport,
) -> bool {
    match attempt {
        Ok(block) => if hasher.header_digest(block@.signed_header.header) == hasher.header_digest(
            verified@.signed_header.header,
        ) {
            report is Agrees
        } else {
            &&& report matches WitnessReport::Forked(evidence)
            &&& evidence@.primary == verified@.signed_header
            &&& evidence@.witness == block@.signed_header
            &&& evidence@.ancestor == ancestor@.signed_header
        },
        Err(Error::Io(e)) => report == WitnessReport::Unreachable(e),
        Err(e) => report == WitnessReport::Faulty(e),
    }
}

/// Judges a witness that does not hold the primary's block by the outcome
/// of its attempt to verify its own block from the common ancestor: if the
/// attempt succeeded with a block that hashes otherwise, there is a fork; if
/// it failed for want of an answer, the witness could not be asked; if it
/// failed otherwise, the witness is faulty.
pub fn judge<H: Hasher>(
    hasher: &H,
    verified: &LightBlock,
    ancestor: &LightBlock,
    attempt: Result<LightBlock, Error>,
) -> (report: WitnessReport)
    ensures
        judgement(*hasher, *verified, *ancestor, attempt, report),
        report matches WitnessReport::Forked(evidence) ==> (verified@.height()
            == attempt->Ok_0@.height() ==> conflicting(*hasher, evidence@)),
{
    match attempt {
        Ok(block) => {
            let theirs = hasher.hash_header(&block.signed_header.header);
            let ours = hasher.hash_header(&verified.signed_header.header);
            if theirs.matches(&ours) {
                WitnessReport::Agrees
            } else {
                WitnessReport::Forked(
                    Evidence {
                        primary: verified.signed_header.clone(),
                        witness: block.signed_header,
                        ancestor: ancestor.signed_header.clone(),
                    },
                )
            }
        },
        Err(Error::Io(e)) => WitnessReport::Unreachable(e),
        Err(e) => WitnessReport::Faulty(e),
    }
}

/// What `examine_witness` makes of the witness's answer to the request for
/// its block at the height of the block that the primary verified.
///
/// Where no block came back, the witness could not be asked. A block of
/// another height speaks against the witness. A block that hashes like the
/// primary's agrees. In these cases the witness's store is left as it was.
/// Otherwise the witness holds the common ancestor as a trusted block, has
/// tried to verify its own block from there, and is judged by the outcome
/// of that attempt; where the attempt succeeded, the block that it brought
/// is trusted in the witness's store.
pub open spec fn weighed<H: Hasher>(
    hasher: H,
    verified: LightBlock,
    ancestor: LightBlock,
    answer: Result<LightBlock, IoError>,
    before: Entries,
    after: Entries,
    report: WitnessReport,
) -> bool {
    match answer {
        Err(e) => report == WitnessReport::Unreachable(e) && after == before,
        Ok(theirs) => if theirs@.height() != verified@.height() {
            report == WitnessReport::Faulty(Error::Io(IoError::InvalidHeight)) && after == before
        } else if hasher.header_digest(theirs@.signed_header.header) == hasher.header_digest(
            verified@.signed_header.header,
        ) {
            report == WitnessReport::Agrees && after == before
        } else {
            &&& holds(after, ancestor@.height(), Status::Trusted)
            &&& exists|attempt: Result<LightBlock, Error>|
                {
                    &&& #[trigger] judgement(hasher, verified, ancestor, attempt, report)
                    &&& attempt matches Ok(block) ==> block@.height() == verified@.height()
                        && holds(after, verified@.height(), Status::Trusted) && block@
                        == after[verified@.height()].block@
                }
        },
    }
}

/// Examines one witness against the block that the primary has verified.
///
/// The witness is asked for its block at the same height, and again within
/// its retry budget. If the block hashes like the primary's, the witness
/// agrees. Otherwise the witness is given the common ancestor as a trusted
/// block and made to verify its own block from there; `judge` says what is
/// made of the outcome. No block that the witness trusted is touched.
pub fn examine_witness<I: Io, V: Verifier, S: LightStore, K: Clock, H: Hasher>(
    witness: &mut LightClient<I, V, S, K>,
    hasher: &H,
    verified: &LightBlock,
    ancestor: &LightBlock,
) -> (report: WitnessReport)
    ensures
        final(witness).peer == old(witness).peer,
        final(witness).options == old(witness).options,
        final(witness).max_retry_attempts == old(witness).max_retry_attempts,
        extends(old(witness).io.exchanges(), final(witness).io.exchanges()),
        final(witness).verifier == old(witness).verifier,
        final(witness).clock == old(witness).clock,
        trusted_kept(old(witness).store.entries(), final(witness).store.entries()),
        report matches WitnessReport::Forked(evidence) ==> {
            &&& conflicting(*hasher, evidence@)
            &&& evidence@.primary == verified@.signed_header
            &&& evidence@.ancestor == ancestor@.signed_header
            &&& holds(final(witness).store.entries(), verified@.height(), Status::Trusted)
            &&& evidence@.witness == final(witness).store.entries()[verified@.height()].block@.signed_header
        },
        exists|asked: Exchanges|
            {
                &&& #[trigger] asked_with_retries(
                    old(witness).io.exchanges(),
                    asked,
                    old(witness).peer,
                    AtHeight::Exact(verified@.height()),
                    old(witness).max_retry_attempts,
                    asked.last().answer,
                )
                &&& extends(asked, final(witness).io.exchanges())
                &&& weighed(
                    *hasher,
                    *verified,
                    *ancestor,
                    asked.last().answer,
                    old(witness).store.entries(),
                    final(witness).store.entries(),
                    report,
                )
            },
{
    let height: Height = verified.height();
    let ghost before = witness.store.entries();
    let answer = fetch_with_retries(
        &mut witness.io,
        witness.peer,
        AtHeight::Exact(height),
        witness.max_retry_attempts,
    );
    let ghost asked = witness.io.exchanges();
    proof {
        assert(asked_with_retries(
            old(witness).io.exchanges(),
            asked,
            witness.peer,
            AtHeight::Exact(height),
            witness.max_retry_attempts,
            asked.last().answer,
        ));
    }
    let theirs = match answer {
        Ok(block) => block,
        Err(e) => {
            return WitnessReport::Unreachable(e);
        },
    };
    if theirs.height() != height {
        return WitnessReport::Faulty(Error::Io(IoError::InvalidHeight));
    }
    let their_hash = hasher.hash_header(&theirs.signed_header.header);
    let our_hash = hasher.hash_header(&verified.signed_header.header);
    if their_hash.matches(&our_hash) {
        return WitnessReport::Agrees;
    }
    // The witness differs: let it verify its block from the block that both
    // peers agreed on.
    let seeded = witness.store.insert(ancestor.clone(), Status::Trusted);
    let ghost with_ancestor = witness.store.entries();
    let kept = witness.store.insert(theirs, Status::Unverified);
    let ghost with_theirs = witness.store.entries();
    let attempt = witness.verify_to_target(height);
    let report = judge(hasher, verified, ancestor, attempt);
    proof {
        let after = witness.store.entries();
        lemma_trusted_kept_on(before, with_ancestor, with_theirs);
        lemma_trusted_kept_on(before, with_theirs, after);
        lemma_extends_on(old(witness).io.exchanges(), asked, witness.io.exchanges());
        assert(holds(with_ancestor, ancestor@.height(), Status::Trusted));
        assert(holds(with_theirs, ancestor@.height(), Status::Trusted));
        assert(holds(after, ancestor@.height(), Status::Trusted));
        assert(judgement(*hasher, *verified, *ancestor, attempt, report));
        assert(weighed(*hasher, *verified, *ancestor, asked.last().answer, before, after, report));
    }
    report
}

} // verus!
