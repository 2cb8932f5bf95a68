//! The light client of one peer: it fetches, verifies and stores light
//! blocks until a target height is trusted.

use crate::light_client::errors::{Error, IoError, VerificationError};
use crate::light_client::io::{
    asked_with_retries, extends, fetch_with_retries, lemma_extends_on, AtHeight, Exchanges, Io,
};
use crate::light_client::scheduler::{
    lemma_highest_unique, lemma_lowest_unique, pivot_height, schedule, trusted_height, Step,
};
use crate::light_client::store::{
    after_insert, after_update, highest_at, holds, lowest_at, Entries, LightStore, StoreEntry,
};
use crate::light_client::predicates::{
    check_within_trust_period, ProdPredicates, VerificationPredicates,
};
use crate::light_client::types::{
    Height, LightBlock, LightBlockView, Options, PeerId, Status, Time,
};
use crate::light_client::verdict::{Clock, Verdict, VerdictView, Verifier};
use vstd::prelude::*;

verus! {

/// At the time `now`, the verifier found the block at `height` valid and
/// trusted it on the strength of the trusted block at `anchor`.
pub open spec fn vouches<V: Verifier>(
    verifier: V,
    options: Options,
    entries: Entries,
    anchor: Height,
    height: Height,
    now: Time,
) -> bool {
    &&& holds(entries, anchor, Status::Trusted)
    &&& entries.contains_key(height)
    &&& verifier.verdict_at(entries[height].block@, entries[anchor].block@, options, now) is Success
}

/// Every block that is trusted in `after` was trusted in `before` already,
/// or the verifier vouched for it on the strength of a trusted block.
pub open spec fn chain_of_trust<V: Verifier>(
    verifier: V,
    options: Options,
    before: Entries,
    after: Entries,
) -> bool {
    forall|h: Height| #[trigger]
        holds(after, h, Status::Trusted) ==> holds(before, h, Status::Trusted) || exists|
            anchor: Height,
            now: Time,
        |
            vouches(verifier, options, after, anchor, h, now)
}

/// Every block that is trusted in `before` is there in `after`, unchanged
/// and trusted.
pub open spec fn trusted_kept(before: Entries, after: Entries) -> bool {
    forall|h: Height| #[trigger]
        holds(before, h, Status::Trusted) ==> holds(after, h, Status::Trusted) && after[h]
            == before[h]
}

/// What is kept from one store to a second and from there to a third is
/// kept from the first to the third.
pub proof fn lemma_trusted_kept_on(first: Entries, second: Entries, third: Entries)
    requires
        trusted_kept(first, second),
        trusted_kept(second, third),
    ensures
        trusted_kept(first, third),
{
    assert forall|h: Height| #[trigger] holds(first, h, Status::Trusted) implies holds(
        third,
        h,
        Status::Trusted,
    ) && third[h] == first[h] by {
        assert(holds(second, h, Status::Trusted));
    }
}

/// The two stores hold trusted and verified blocks at the same heights.
pub open spec fn same_marks(a: Entries, b: Entries) -> bool {
    &&& forall|h: Height| #[trigger]
        holds(a, h, Status::Trusted) == holds(b, h, Status::Trusted)
    &&& forall|h: Height| #[trigger]
        holds(a, h, Status::Verified) == holds(b, h, Status::Verified)
}

/// How far the store is from the target: the heights left above the highest
/// trusted block.
pub open spec fn heights_left(entries: Entries, target: Height) -> nat {
    match trusted_height(entries, target) {
        Some(t) => (target - t) as nat,
        None => 0,
    }
}

/// How wide the bisection is: the heights between the highest trusted block
/// and the pivot, and one more than the heights left while there is no
/// pivot.
pub open spec fn bisection_width(entries: Entries, target: Height) -> nat {
    match trusted_height(entries, target) {
        Some(t) => match pivot_height(entries, t, target) {
            Some(p) => (p - t) as nat,
            None => (target - t + 1) as nat,
        },
        None => 0,
    }
}

/// What `trusted_height` answers, spelled out.
pub proof fn lemma_trusted_height(entries: Entries, target: Height)
    ensures
        match trusted_height(entries, target) {
            Some(t) => highest_at(entries, Status::Trusted, target, t),
            None => forall|h: Height| #[trigger]
                holds(entries, h, Status::Trusted) ==> h > target,
        },
{
    if trusted_height(entries, target) is None {
        assert forall|h: Height| #[trigger] holds(entries, h, Status::Trusted) implies h
            > target by {
            if h <= target {
                lemma_highest_exists(entries, Status::Trusted, target, h);
            }
        }
    }
}

/// Where the store holds a block with a status at or below a limit, there
/// is a highest such block.
pub proof fn lemma_highest_exists(entries: Entries, status: Status, limit: Height, h: Height)
    requires
        holds(entries, h, status),
        h <= limit,
    ensures
        exists|top: Height| highest_at(entries, status, limit, top),
    decreases limit - h,
{
    if forall|k: Height| #[trigger] holds(entries, k, status) && k <= limit ==> k <= h {
        assert(highest_at(entries, status, limit, h));
    } else {
        let k = choose|k: Height| #[trigger] holds(entries, k, status) && k <= limit && !(k <= h);
        lemma_highest_exists(entries, status, limit, k);
    }
}

/// Where the store holds a block with a status above a floor, there is a
/// lowest such block.
pub proof fn lemma_lowest_exists(entries: Entries, status: Status, floor: Height, h: Height)
    requires
        holds(entries, h, status),
        h > floor,
    ensures
        exists|low: Height| lowest_at(entries, status, floor, low) && low <= h,
    decreases h,
{
    if forall|k: Height| #[trigger] holds(entries, k, status) && k > floor ==> h <= k {
        assert(lowest_at(entries, status, floor, h));
    } else {
        let k = choose|k: Height| #[trigger] holds(entries, k, status) && k > floor && !(h <= k);
        lemma_lowest_exists(entries, status, floor, k);
    }
}

/// What `pivot_height` answers, spelled out: the pivot is the lowest
/// verified block above the trusted height, and it is not above the target;
/// where there is none, no verified block lies above the trusted height and
/// not above the target.
pub proof fn lemma_pivot_height(entries: Entries, trusted_h: Height, target: Height)
    ensures
        match pivot_height(entries, trusted_h, target) {
            Some(p) => lowest_at(entries, Status::Verified, trusted_h, p) && p <= target,
            None => forall|h: Height| #[trigger]
                holds(entries, h, Status::Verified) && h > trusted_h ==> h > target,
        },
{
    if pivot_height(entries, trusted_h, target) is None {
        assert forall|h: Height| #[trigger]
            holds(entries, h, Status::Verified) && h > trusted_h implies h > target by {
            if h <= target {
                lemma_lowest_exists(entries, Status::Verified, trusted_h, h);
            }
        }
    }
}

/// Stores with trusted and verified blocks at the same heights are equally
/// far from a target, and bisect alike.
pub proof fn lemma_same_marks(a: Entries, b: Entries, target: Height)
    requires
        same_marks(a, b),
    ensures
        trusted_height(a, target) == trusted_height(b, target),
        forall|t: Height| pivot_height(a, t, target) == pivot_height(b, t, target),
{
    assert forall|h: Height|
        highest_at(a, Status::Trusted, target, h) == highest_at(
            b,
            Status::Trusted,
            target,
            h,
        ) by {
        if highest_at(a, Status::Trusted, target, h) {
            assert forall|k: Height| #[trigger]
                holds(b, k, Status::Trusted) && k <= target implies k <= h by {
                assert(holds(a, k, Status::Trusted));
            }
        }
        if highest_at(b, Status::Trusted, target, h) {
            assert forall|k: Height| #[trigger]
                holds(a, k, Status::Trusted) && k <= target implies k <= h by {
                assert(holds(b, k, Status::Trusted));
            }
        }
    }
    if exists|h: Height| highest_at(a, Status::Trusted, target, h) {
        let x = choose|h: Height| highest_at(a, Status::Trusted, target, h);
        let y = choose|h: Height| highest_at(b, Status::Trusted, target, h);
        assert(highest_at(b, Status::Trusted, target, x));
        lemma_highest_unique(b, Status::Trusted, target, x, y);
    }
    assert forall|t: Height| pivot_height(a, t, target) == pivot_height(b, t, target) by {
        assert forall|h: Height|
            lowest_at(a, Status::Verified, t, h) == lowest_at(b, Status::Verified, t, h) by {
            if lowest_at(a, Status::Verified, t, h) {
                assert forall|k: Height| #[trigger]
                    holds(b, k, Status::Verified) && k > t implies h <= k by {
                    assert(holds(a, k, Status::Verified));
                }
            }
            if lowest_at(b, Status::Verified, t, h) {
                assert forall|k: Height| #[trigger]
                    holds(a, k, Status::Verified) && k > t implies h <= k by {
                    assert(holds(b, k, Status::Verified));
                }
            }
        }
        if exists|h: Height| lowest_at(a, Status::Verified, t, h) && h <= target {
            let x = choose|h: Height| lowest_at(a, Status::Verified, t, h) && h <= target;
            let y = choose|h: Height| lowest_at(b, Status::Verified, t, h) && h <= target;
            assert(lowest_at(b, Status::Verified, t, x) && x <= target);
            lemma_lowest_unique(b, Status::Verified, t, x, y);
        } else {
            if exists|h: Height| lowest_at(b, Status::Verified, t, h) && h <= target {
                let y = choose|h: Height| lowest_at(b, Status::Verified, t, h) && h <= target;
                assert(lowest_at(a, Status::Verified, t, y) && y <= target);
            }
        }
    }
}

/// Once a block above the highest trusted one is trusted itself, it is the
/// highest trusted block.
pub proof fn lemma_promoted(before: Entries, after: Entries, target: Height, next: Height)
    requires
        trusted_height(before, target) matches Some(t) && t < next <= target,
        holds(after, next, Status::Trusted),
        forall|h: Height|
            h != next ==> #[trigger] holds(after, h, Status::Trusted) == holds(
                before,
                h,
                Status::Trusted,
            ),
    ensures
        trusted_height(after, target) == Some(next),
{
    let t = trusted_height(before, target)->0;
    lemma_trusted_height(before, target);
    assert(highest_at(after, Status::Trusted, target, next)) by {
        assert forall|h: Height| #[trigger]
            holds(after, h, Status::Trusted) && h <= target implies h <= next by {
            if h != next {
                assert(holds(before, h, Status::Trusted));
            }
        }
    }
    lemma_highest_unique(
        after,
        Status::Trusted,
        target,
        next,
        choose|h: Height| highest_at(after, Status::Trusted, target, h),
    );
}

/// Once a block above the highest trusted one, not above the target and
/// below every verified block, is marked verified, it is the pivot.
pub proof fn lemma_new_pivot(before: Entries, after: Entries, target: Height, next: Height)
    requires
        trusted_height(before, target) matches Some(t) && t < next <= target && (pivot_height(
            before,
            t,
            target,
        ) matches Some(p) ==> next < p),
        holds(after, next, Status::Verified),
        forall|h: Height| #[trigger]
            holds(after, h, Status::Trusted) == holds(before, h, Status::Trusted),
        forall|h: Height|
            h != next ==> #[trigger] holds(after, h, Status::Verified) == holds(
                before,
                h,
                Status::Verified,
            ),
    ensures
        trusted_height(after, target) == trusted_height(before, target),
        pivot_height(after, trusted_height(before, target)->0, target) == Some(next),
{
    let t = trusted_height(before, target)->0;
    lemma_trusted_height(before, target);
    lemma_pivot_height(before, t, target);
    assert(highest_at(after, Status::Trusted, target, t)) by {
        assert forall|h: Height| #[trigger]
            holds(after, h, Status::Trusted) && h <= target implies h <= t by {
            assert(holds(before, h, Status::Trusted));
        }
    }
    lemma_highest_unique(
        after,
        Status::Trusted,
        target,
        t,
        choose|h: Height| highest_at(after, Status::Trusted, target, h),
    );
    assert(lowest_at(after, Status::Verified, t, next)) by {
        assert forall|h: Height| #[trigger]
            holds(after, h, Status::Verified) && h > t implies next <= h by {
            if h != next {
                assert(holds(before, h, Status::Verified));
            }
        }
    }
    let c = choose|h: Height| lowest_at(after, Status::Verified, t, h) && h <= target;
    lemma_lowest_unique(after, Status::Verified, t, next, c);
}

/// What `verify_to_highest` makes of the peer's answer to the request for
/// its highest block. Where no block came back, the error is passed on and
/// the store is left as it was. Where a block came back, its height is the
/// target: a block that is returned has that height, the call succeeds and
/// leaves the store as it was where that height was trusted already, and it
/// fails for want of a trusted block exactly where the store held none at or
/// below that height.
pub open spec fn outcome_for_highest(
    answer: Result<LightBlock, IoError>,
    before: Entries,
    after: Entries,
    outcome: Result<LightBlock, Error>,
) -> bool {
    match answer {
        Err(e) => outcome == Err::<LightBlock, Error>(Error::Io(e)) && after == before,
        Ok(highest) => {
            &&& outcome matches Ok(block) ==> block@.height() == highest@.height()
            &&& holds(before, highest@.height(), Status::Trusted) ==> outcome is Ok && after
                == before
            &&& trusted_height(before, highest@.height()) is None <==> outcome == Err::<
                LightBlock,
                Error,
            >(Error::NoTrustedState)
        },
    }
}

/// What is made of the answer to a request for the block at `height`: the
/// error of the request, a refusal of a block of another height, or
/// nothing to object to.
pub open spec fn acceptance(height: Height, answer: Result<LightBlock, IoError>) -> Result<
    (),
    Error,
> {
    match answer {
        Err(e) => Err(Error::Io(e)),
        Ok(block) => if block@.height() == height {
            Ok(())
        } else {
            Err(Error::Io(IoError::InvalidHeight))
        },
    }
}

/// The store after the answer to a request for the block at `height` is
/// dealt with: a block of that height is put in as unverified, and nothing
/// changes otherwise.
pub open spec fn kept(before: Entries, height: Height, answer: Result<LightBlock, IoError>)
    -> Entries {
    match answer {
        Ok(block) => if block@.height() == height {
            after_insert(before, block, Status::Unverified)
        } else {
            before
        },
        Err(_) => before,
    }
}

/// Deals with the answer to a request for the block at `height`: a block of
/// that height is put in the store as unverified; a block of another height
/// is refused; an error is passed on.
pub fn keep_fetched<S: LightStore>(
    store: &mut S,
    height: Height,
    answer: Result<LightBlock, IoError>,
) -> (outcome: Result<(), Error>)
    ensures
        outcome == acceptance(height, answer),
        final(store).entries() == kept(old(store).entries(), height, answer),
{
    match answer {
        Err(e) => Err(Error::Io(e)),
        Ok(block) => {
            if block.height() != height {
                return Err(Error::Io(IoError::InvalidHeight));
            }
            let stored = store.insert(block, Status::Unverified);
            Ok(())
        },
    }
}

/// The store after the verdict on the block at `next`, verified against the
/// trusted block at `anchor`. With success the block passes to verified and
/// on to trusted. Short of trust it is marked verified, to be the pivot of
/// the bisection, unless it follows the anchor directly: then nothing is
/// left to bisect, and the store stays as it is. An invalid block is marked
/// failed.
pub open spec fn settled(before: Entries, next: Height, anchor: Height, verdict: Verdict)
    -> Entries {
    match verdict {
        Verdict::Success => after_update(
            after_update(before, next, Status::Verified),
            next,
            Status::Trusted,
        ),
        Verdict::NotEnoughTrust(_) => if next == anchor + 1 {
            before
        } else {
            after_update(before, next, Status::Verified)
        },
        Verdict::Invalid(_) => after_update(before, next, Status::Failed),
    }
}

/// The error that ends the work on a target after the verdict on the block
/// at `next`, verified against the trusted block at `anchor`: none with
/// success; none short of trust while a height is left to bisect to, and
/// `CannotBisect` where the block follows the anchor directly; the
/// verifier's error for an invalid block.
pub open spec fn stop_after(next: Height, anchor: Height, verdict: Verdict) -> Option<Error> {
    match verdict {
        Verdict::Success => None,
        Verdict::NotEnoughTrust(e) => if next == anchor + 1 {
            Some(Error::CannotBisect(e))
        } else {
            None
        },
        Verdict::Invalid(e) => Some(Error::InvalidLightBlock(e)),
    }
}

/// Takes note in the store of the verdict on the block at `next`, verified
/// against the trusted block at `anchor`, and tells whether the work on the
/// target ends with it.
pub fn settle<S: LightStore>(store: &mut S, next: Height, anchor: Height, verdict: Verdict) -> (stop:
    Option<Error>)
    ensures
        final(store).entries() == settled(old(store).entries(), next, anchor, verdict),
        stop == stop_after(next, anchor, verdict),
{
    match verdict {
        Verdict::Success => {
            let marked = store.update(next, Status::Verified);
            let promoted = store.update(next, Status::Trusted);
            None
        },
        Verdict::NotEnoughTrust(e) => {
            if next > 0 && next - 1 == anchor {
                return Some(Error::CannotBisect(e));
            }
            let marked = store.update(next, Status::Verified);
            None
        },
        Verdict::Invalid(e) => {
            let failed = store.update(next, Status::Failed);
            Some(Error::InvalidLightBlock(e))
        },
    }
}

/// At the time `now`, the verifier reached `verdict` on the block at
/// `height`, verified against the trusted block at `anchor`.
pub open spec fn found<V: Verifier>(
    verifier: V,
    options: Options,
    entries: Entries,
    anchor: Height,
    height: Height,
    now: Time,
    verdict: VerdictView,
) -> bool {
    &&& holds(entries, anchor, Status::Trusted)
    &&& entries.contains_key(height)
    &&& verifier.verdict_at(entries[height].block@, entries[anchor].block@, options, now)
        == verdict
}

/// The error says that a trusted block of the store has expired: its time
/// and the trusting period do not lie after the time that the error holds.
pub open spec fn found_expired(entries: Entries, options: Options, e: VerificationError) -> bool {
    &&& e matches VerificationError::Expired { trusted_time, now }
    &&& trusted_time.0 + options.trusting_period.0 <= now.0
    &&& exists|anchor: Height|
        holds(entries, anchor, Status::Trusted) && (
        #[trigger] entries[anchor]).block@.signed_header.header.time == trusted_time
}

/// Why a call that failed did so. For want of a trusted block nothing more
/// is said here. An error of the peer means that the peer was asked. An
/// invalid block is one that the verifier found invalid against a trusted
/// block, and that is marked failed; or else a trusted block had expired. A
/// bisection ends where the verifier found a block short of trust that
/// follows a trusted block directly. No other error comes back.
pub open spec fn failure<V: Verifier>(
    verifier: V,
    options: Options,
    asked_before: int,
    asked_after: int,
    after: Entries,
    e: Error,
) -> bool {
    match e {
        Error::NoTrustedState => true,
        Error::Io(_) => asked_after > asked_before,
        Error::InvalidLightBlock(cause) => found_expired(after, options, cause) || exists|
            anchor: Height,
            height: Height,
            now: Time,
        |
            #[trigger] found(
                verifier,
                options,
                after,
                anchor,
                height,
                now,
                VerdictView::Invalid(cause@),
            ) && holds(after, height, Status::Failed),
        Error::CannotBisect(cause) => exists|anchor: Height, now: Time| #[trigger]
            found(
                verifier,
                options,
                after,
                anchor,
                (anchor + 1) as Height,
                now,
                VerdictView::NotEnoughTrust(cause@),
            ) && anchor < u64::MAX,
        _ => false,
    }
}

/// The error that ends the work on a target where the trusted block
/// `anchor` has expired at the time `now`: its time and the trusting period
/// do not lie after `now`.
pub open spec fn expired_at(anchor: LightBlockView, options: Options, now: Time) -> Option<Error> {
    match check_within_trust_period(anchor.signed_header.header, options.trusting_period, now) {
        Ok(()) => None,
        Err(_) => Some(
            Error::InvalidLightBlock(
                VerificationError::Expired { trusted_time: anchor.signed_header.header.time, now },
            ),
        ),
    }
}

/// Tells whether the trusted block `anchor` has expired at the time `now`,
/// and with which error the work on a target ends if it has.
pub fn expiry_at(anchor: &LightBlock, options: &Options, now: Time) -> (stop: Option<Error>)
    ensures
        stop == expired_at(anchor@, *options, now),
{
    match ProdPredicates.is_within_trust_period(
        &anchor.signed_header.header,
        options.trusting_period,
        now,
    ) {
        Ok(()) => None,
        Err(e) => {
            Some(
                Error::InvalidLightBlock(
                    VerificationError::Expired {
                        trusted_time: anchor.signed_header.header.time,
                        now,
                    },
                ),
            )
        },
    }
}

/// The error that ends the work on a target before anything is fetched:
/// there is work to do, for the highest trusted block lies below the
/// target, and that block has expired at the time `now`.
pub open spec fn expired_before_the_target(
    entries: Entries,
    options: Options,
    target: Height,
    now: Time,
) -> Option<Error> {
    match trusted_height(entries, target) {
        Some(t) => if t == target {
            None
        } else {
            expired_at(entries[t].block@, options, now)
        },
        None => None,
    }
}

/// The store `after` is closer to the target than the store `before`: it
/// holds a trusted block at or below the target, and either fewer heights
/// are left above its highest trusted block, or as many and the bisection
/// is narrower.
pub open spec fn closer(before: Entries, after: Entries, target: Height) -> bool {
    &&& trusted_height(before, target) is Some
    &&& trusted_height(after, target) is Some
    &&& heights_left(after, target) < heights_left(before, target) || (heights_left(after, target)
        == heights_left(before, target) && bisection_width(after, target) < bisection_width(
        before,
        target,
    ))
}

/// The light client of one peer.
pub struct LightClient<I: Io, V: Verifier, S: LightStore, K: Clock> {
    /// The peer that blocks are fetched from.
    pub peer: PeerId,
    /// How to verify.
    pub options: Options,
    /// How often a request to the peer is made again after it failed in a
    /// way that may pass.
    pub max_retry_attempts: u32,
    pub io: I,
    pub verifier: V,
    pub clock: K,
    /// The blocks that the client holds.
    pub store: S,
}

impl<I: Io, V: Verifier, S: LightStore, K: Clock> LightClient<I, V, S, K> {
    /// The light client of `peer` that holds the blocks of `store`.
    pub fn new(
        peer: PeerId,
        options: Options,
        max_retry_attempts: u32,
        io: I,
        verifier: V,
        clock: K,
        store: S,
    ) -> (client: Self)
        ensures
            client.peer == peer,
            client.options == options,
            client.max_retry_attempts == max_retry_attempts,
            client.io == io,
            client.verifier == verifier,
            client.clock == clock,
            client.store == store,
    {
        LightClient { peer, options, max_retry_attempts, io, verifier, clock, store }
    }

    /// The highest trusted block that the client holds.
    pub fn latest_trusted(&self) -> (found: Option<LightBlock>)
        ensures
            match found {
                Some(block) => highest_at(
                    self.store.entries(),
                    Status::Trusted,
                    u64::MAX,
                    block@.height(),
                ) && block@ == self.store.entries()[block@.height()].block@,
                None => forall|h: Height| !#[trigger] holds(
                    self.store.entries(),
                    h,
                    Status::Trusted,
                ),
            },
    {
        match self.store.latest(Status::Trusted) {
            Some(block) => Some(block.clone()),
            None => None,
        }
    }

    /// Makes sure that the store holds a block at `height` that is yet to be
    /// judged: the one it holds, or else one fetched from the peer and put
    /// in as unverified.
    fn provide(&mut self, height: Height) -> (outcome: Result<(), Error>)
        requires
            !holds(old(self).store.entries(), height, Status::Trusted),
        ensures
            final(self).peer == old(self).peer,
            final(self).options == old(self).options,
            final(self).max_retry_attempts == old(self).max_retry_attempts,
            extends(old(self).io.exchanges(), final(self).io.exchanges()),
            final(self).verifier == old(self).verifier,
            final(self).clock == old(self).clock,
            same_marks(old(self).store.entries(), final(self).store.entries()),
            trusted_kept(old(self).store.entries(), final(self).store.entries()),
            forall|h: Height|
                h != height ==> (#[trigger] final(self).store.entries().contains_key(h)) == old(self).store.entries().contains_key(h),
            forall|h: Height|
                h != height && #[trigger] final(self).store.entries().contains_key(h) ==> final(self).store.entries()[h] == old(self).store.entries()[h],
            outcome is Ok ==> holds(final(self).store.entries(), height, Status::Unverified)
                || holds(final(self).store.entries(), height, Status::Verified),
            outcome matches Err(e) ==> e is Io && final(self).io.exchanges().len() > old(self).io.exchanges().len(),
            final(self).io.exchanges().len() == old(self).io.exchanges().len() ==> final(self).store.entries() == old(self).store.entries(),
    {
        let ghost before = self.store.entries();
        if self.store.get(height, Status::Verified).is_some() {
            return Ok(());
        }
        if self.store.get(height, Status::Unverified).is_some() {
            return Ok(());
        }
        let answer = fetch_with_retries(
            &mut self.io,
            self.peer,
            AtHeight::Exact(height),
            self.max_retry_attempts,
        );
        keep_fetched(&mut self.store, height, answer)
    }

    /// Asks the peer for its highest block and brings the block at that
    /// height to trust. What holds of `verify_to_target` holds of this call,
    /// for the height of the block that the peer answered with.
    ///
    /// The peer is asked for its highest block first, and again within the
    /// retry budget. Where no block comes back, the call fails with the
    /// error that came back last, and nothing else is done. Where a block
    /// comes back, its height is the target: the call succeeds at once where
    /// that height is trusted already, and fails at once where the store
    /// holds no trusted block at or below it.
    pub fn verify_to_highest(&mut self) -> (outcome: Result<LightBlock, Error>)
        ensures
            final(self).peer == old(self).peer,
            final(self).options == old(self).options,
            final(self).max_retry_attempts == old(self).max_retry_attempts,
            extends(old(self).io.exchanges(), final(self).io.exchanges()),
            final(self).verifier == old(self).verifier,
            final(self).clock == old(self).clock,
            trusted_kept(old(self).store.entries(), final(self).store.entries()),
            chain_of_trust(
                old(self).verifier,
                old(self).options,
                old(self).store.entries(),
                final(self).store.entries(),
            ),
            outcome matches Ok(block) ==> {
                &&& holds(final(self).store.entries(), block@.height(), Status::Trusted)
                &&& block@ == final(self).store.entries()[block@.height()].block@
            },
            outcome matches Err(e) ==> failure(
                old(self).verifier,
                old(self).options,
                old(self).io.exchanges().len() as int,
                final(self).io.exchanges().len() as int,
                final(self).store.entries(),
                e,
            ),
            exists|asked: Exchanges|
                {
                    &&& #[trigger] asked_with_retries(
                        old(self).io.exchanges(),
                        asked,
                        old(self).peer,
                        AtHeight::Highest,
                        old(self).max_retry_attempts,
                        asked.last().answer,
                    )
                    &&& extends(asked, final(self).io.exchanges())
                    &&& asked.last().answer is Err ==> final(self).io.exchanges() == asked
                    &&& outcome_for_highest(
                        asked.last().answer,
                        old(self).store.entries(),
                        final(self).store.entries(),
                        outcome,
                    )
                },
    {
        let ghost before = self.store.entries();
        let answer = fetch_with_retries(
            &mut self.io,
            self.peer,
            AtHeight::Highest,
            self.max_retry_attempts,
        );
        let ghost asked = self.io.exchanges();
        let highest = match answer {
            Ok(block) => block,
            Err(e) => {
                proof {
                    assert(asked_with_retries(
                        old(self).io.exchanges(),
                        asked,
                        self.peer,
                        AtHeight::Highest,
                        self.max_retry_attempts,
                        asked.last().answer,
                    ));
                }
                return Err(Error::Io(e));
            },
        };
        let target_height: Height = highest.height();
        // Keep the block, so that it need not be fetched again.
        let kept = self.store.insert(highest, Status::Unverified);
        let ghost seeded = self.store.entries();
        let outcome = self.verify_to_target(target_height);
        proof {
            let after = self.store.entries();
            lemma_trusted_kept_on(before, seeded, after);
            assert forall|h: Height| #[trigger] holds(after, h, Status::Trusted) implies holds(
                before,
                h,
                Status::Trusted,
            ) || exists|anchor: Height, now: Time|
                vouches(self.verifier, self.options, after, anchor, h, now) by {
                if holds(seeded, h, Status::Trusted) {
                    assert(holds(before, h, Status::Trusted));
                }
            }
            assert(same_marks(before, seeded));
            lemma_same_marks(before, seeded, target_height);
            lemma_extends_on(old(self).io.exchanges(), asked, self.io.exchanges());
            assert(asked_with_retries(
                old(self).io.exchanges(),
                asked,
                self.peer,
                AtHeight::Highest,
                self.max_retry_attempts,
                asked.last().answer,
            ));
            assert(outcome_for_highest(asked.last().answer, before, after, outcome));
        }
        outcome
    }

    /// One round of the work on a target, at the time `now`.
    ///
    /// With no trusted block at or below the target the round ends the work
    /// with `NoTrustedState`; with the target trusted it ends it with the
    /// target's block; in both cases nothing is asked and nothing changes.
    /// Otherwise the scheduler proposes a height. Where the highest trusted
    /// block has expired at `now`, the round ends the work with `Expired`
    /// before anything is fetched: the store and the exchanges stay as they
    /// are. Else the block at the proposed height is taken from the store or
    /// fetched, verified against the highest trusted block, and the verdict
    /// settled; the round ends the work with the error of the fetch or of
    /// the verdict, or leaves it closer to its end: with a higher trusted
    /// block, or with a narrower bisection.
    pub fn round(&mut self, target_height: Height, now: Time) -> (progress: Option<
        Result<LightBlock, Error>,
    >)
        ensures
            final(self).peer == old(self).peer,
            final(self).options == old(self).options,
            final(self).max_retry_attempts == old(self).max_retry_attempts,
            extends(old(self).io.exchanges(), final(self).io.exchanges()),
            final(self).verifier == old(self).verifier,
            final(self).clock == old(self).clock,
            trusted_kept(old(self).store.entries(), final(self).store.entries()),
            chain_of_trust(
                old(self).verifier,
                old(self).options,
                old(self).store.entries(),
                final(self).store.entries(),
            ),
            trusted_height(old(self).store.entries(), target_height) is None <==> progress == Some(
                Err::<LightBlock, Error>(Error::NoTrustedState),
            ),
            holds(old(self).store.entries(), target_height, Status::Trusted) <==> progress
                matches Some(Ok(_)),
            progress matches Some(Ok(block)) ==> {
                &&& block@.height() == target_height
                &&& block@ == old(self).store.entries()[target_height].block@
                &&& final(self).store.entries() == old(self).store.entries()
                &&& final(self).io.exchanges() == old(self).io.exchanges()
            },
            expired_before_the_target(old(self).store.entries(), old(self).options, target_height, now)
                matches Some(e) ==> {
                &&& progress == Some(Err::<LightBlock, Error>(e))
                &&& final(self).store.entries() == old(self).store.entries()
                &&& final(self).io.exchanges() == old(self).io.exchanges()
            },
            progress matches Some(Err(e)) ==> failure(
                old(self).verifier,
                old(self).options,
                old(self).io.exchanges().len() as int,
                final(self).io.exchanges().len() as int,
                final(self).store.entries(),
                e,
            ),
            progress matches Some(Err(e)) ==> (e is InvalidLightBlock && final(self).store.entries()
                == old(self).store.entries() && final(self).io.exchanges() == old(self).io.exchanges() ==> expired_before_the_target(
                old(self).store.entries(),
                old(self).options,
                target_height,
                now,
            ) == Some(e)),
            progress is None ==> closer(
                old(self).store.entries(),
                final(self).store.entries(),
                target_height,
            ),
    {
        let ghost before = self.store.entries();
        proof {
            lemma_trusted_height(before, target_height);
        }
        let next: Height = match schedule(&self.store, target_height) {
            Step::Stuck => {
                return Some(Err(Error::NoTrustedState));
            },
            Step::Reached => {
                match self.store.get(target_height, Status::Trusted) {
                    Some(block) => {
                        return Some(Ok(block.clone()));
                    },
                    None => {
                        assert(false);
                        return Some(Err(Error::NoTrustedState));
                    },
                }
            },
            Step::Fetch(next) => next,
        };
        let ghost trusted_h = trusted_height(before, target_height)->0;
        proof {
            lemma_pivot_height(before, trusted_h, target_height);
        }

        // The trusted block must not have expired.
        let anchor_h: Height = match self.store.highest_at_or_below(
            Status::Trusted,
            target_height,
        ) {
            None => {
                assert(false);
                return Some(Err(Error::NoTrustedState));
            },
            Some(trusted) => {
                proof {
                    lemma_highest_unique(
                        before,
                        Status::Trusted,
                        target_height,
                        trusted@.height(),
                        trusted_h,
                    );
                }
                match expiry_at(trusted, &self.options, now) {
                    Some(e) => {
                        proof {
                            assert(holds(before, trusted_h, Status::Trusted));
                            assert(found_expired(
                                before,
                                self.options,
                                e->InvalidLightBlock_0,
                            ));
                        }
                        return Some(Err(e));
                    },
                    None => {},
                }
                trusted.height()
            },
        };
        proof {
            lemma_highest_unique(before, Status::Trusted, target_height, anchor_h, trusted_h);
        }

        let ghost asked = self.io.exchanges();
        let provision = self.provide(next);
        proof {
            lemma_extends_on(old(self).io.exchanges(), asked, self.io.exchanges());
        }
        match provision {
            Err(e) => {
                proof {
                    lemma_chain_kept(
                        self.verifier,
                        self.options,
                        before,
                        before,
                        self.store.entries(),
                    );
                }
                return Some(Err(e));
            },
            Ok(()) => {},
        }
        let ghost provided = self.store.entries();
        proof {
            lemma_same_marks(before, provided, target_height);
            lemma_chain_kept(self.verifier, self.options, before, before, provided);
        }

        let verdict = {
            let trusted = match self.store.highest_at_or_below(Status::Trusted, target_height) {
                Some(block) => block,
                None => {
                    assert(false);
                    return Some(Err(Error::NoTrustedState));
                },
            };
            proof {
                lemma_trusted_height(provided, target_height);
                lemma_highest_unique(
                    provided,
                    Status::Trusted,
                    target_height,
                    trusted@.height(),
                    trusted_h,
                );
            }
            let untrusted = match self.store.get(next, Status::Verified) {
                Some(block) => block,
                None => match self.store.get(next, Status::Unverified) {
                    Some(block) => block,
                    None => {
                        assert(false);
                        return Some(Err(Error::NoTrustedState));
                    },
                },
            };
            self.verifier.verify(untrusted, trusted, &self.options)
        };
        let ghost now_then = choose|now: Time|
            verdict@ == #[trigger] self.verifier.verdict_at(
                provided[next].block@,
                provided[trusted_h].block@,
                self.options,
                now,
            );

        let ghost given = verdict;
        match settle(&mut self.store, next, anchor_h, verdict) {
            Some(e) => {
                proof {
                    let after = self.store.entries();
                    match given {
                        Verdict::Success => {},
                        Verdict::NotEnoughTrust(cause) => {
                            assert(found(
                                self.verifier,
                                self.options,
                                after,
                                trusted_h,
                                (trusted_h + 1) as Height,
                                now_then,
                                VerdictView::NotEnoughTrust(cause@),
                            ));
                        },
                        Verdict::Invalid(cause) => {
                            assert(after == provided.insert(
                                next,
                                StoreEntry {
                                    status: Status::Failed,
                                    block: provided[next].block,
                                },
                            ));
                            lemma_chain_kept(
                                self.verifier,
                                self.options,
                                before,
                                provided,
                                after,
                            );
                            assert(holds(after, next, Status::Failed));
                            assert(self.io.exchanges() == old(self).io.exchanges() ==> after[next].status
                                != before[next].status);
                            assert(found(
                                self.verifier,
                                self.options,
                                after,
                                trusted_h,
                                next,
                                now_then,
                                VerdictView::Invalid(cause@),
                            ));
                        },
                    }
                }
                return Some(Err(e));
            },
            None => {
                proof {
                    let after = self.store.entries();
                    match given {
                        Verdict::Success => {
                            assert(after == provided.insert(
                                next,
                                StoreEntry {
                                    status: Status::Trusted,
                                    block: provided[next].block,
                                },
                            ));
                            lemma_promoted(provided, after, target_height, next);
                            assert(vouches(
                                self.verifier,
                                self.options,
                                after,
                                trusted_h,
                                next,
                                now_then,
                            ));
                            lemma_chain_extended(
                                self.verifier,
                                self.options,
                                before,
                                provided,
                                after,
                                next,
                            );
                        },
                        Verdict::NotEnoughTrust(_) => {
                            assert(after == provided.insert(
                                next,
                                StoreEntry {
                                    status: Status::Verified,
                                    block: provided[next].block,
                                },
                            ));
                            lemma_new_pivot(provided, after, target_height, next);
                            lemma_chain_kept(
                                self.verifier,
                                self.options,
                                before,
                                provided,
                                after,
                            );
                        },
                        Verdict::Invalid(_) => {},
                    }
                }
            },
        }
        None
    }

    /// Brings the block at `target_height` to trust, fetching and verifying
    /// the blocks that the scheduler proposes on the way, and returns it.
    ///
    /// Every block that the call adds to the trusted ones is vouched for by
    /// the verifier on the strength of an already trusted block, and no
    /// trusted block is touched. The call succeeds at once where the target
    /// is trusted already, and fails at once where the store holds no
    /// trusted block to start from. It fails with the verifier's error where
    /// the trusted block has expired or a block is invalid, which is then
    /// marked as failed, and with the error of the fetch where a block
    /// cannot be had.
    pub fn verify_to_target(&mut self, target_height: Height) -> (outcome: Result<
        LightBlock,
        Error,
    >)
        ensures
            final(self).peer == old(self).peer,
            final(self).options == old(self).options,
            final(self).max_retry_attempts == old(self).max_retry_attempts,
            extends(old(self).io.exchanges(), final(self).io.exchanges()),
            final(self).verifier == old(self).verifier,
            final(self).clock == old(self).clock,
            trusted_kept(old(self).store.entries(), final(self).store.entries()),
            chain_of_trust(
                old(self).verifier,
                old(self).options,
                old(self).store.entries(),
                final(self).store.entries(),
            ),
            outcome matches Ok(block) ==> {
                &&& block@.height() == target_height
                &&& holds(final(self).store.entries(), target_height, Status::Trusted)
                &&& block@ == final(self).store.entries()[target_height].block@
            },
            trusted_height(old(self).store.entries(), target_height) is None <==> outcome == Err::<
                LightBlock,
                Error,
            >(Error::NoTrustedState),
            holds(old(self).store.entries(), target_height, Status::Trusted) ==> outcome is Ok
                && final(self).store.entries() == old(self).store.entries() && final(self).io.exchanges() == old(self).io.exchanges(),
            outcome matches Err(e) ==> failure(
                old(self).verifier,
                old(self).options,
                old(self).io.exchanges().len() as int,
                final(self).io.exchanges().len() as int,
                final(self).store.entries(),
                e,
            ),
    {
        let ghost start = self.store.entries();
        loop
            invariant
                self.peer == old(self).peer,
                self.options == old(self).options,
                self.max_retry_attempts == old(self).max_retry_attempts,
                extends(old(self).io.exchanges(), self.io.exchanges()),
                holds(start, target_height, Status::Trusted) ==> self.io.exchanges() == old(self).io.exchanges(),
                self.verifier == old(self).verifier,
                self.clock == old(self).clock,
                start == old(self).store.entries(),
                trusted_kept(start, self.store.entries()),
                chain_of_trust(self.verifier, self.options, start, self.store.entries()),
                trusted_height(start, target_height) is None <==> trusted_height(
                    self.store.entries(),
                    target_height,
                ) is None,
                holds(start, target_height, Status::Trusted) ==> self.store.entries() == start,
            decreases
                    heights_left(self.store.entries(), target_height),
                    bisection_width(self.store.entries(), target_height),
        {
            let ghost before = self.store.entries();
            let ghost asked = self.io.exchanges();
            let now = self.clock.now();
            let progress = self.round(target_height, now);
            proof {
                lemma_extends_on(old(self).io.exchanges(), asked, self.io.exchanges());
                lemma_chain_on(self.verifier, self.options, start, before, self.store.entries());
            }
            match progress {
                Some(outcome) => {
                    proof {
                        if outcome is Ok {
                            lemma_trusted_height(start, target_height);
                        }
                    }
                    return outcome;
                },
                None => {},
            }
        }
    }
}

/// A chain of trust that is carried on stays one: what was vouched for up
/// to a store, and then from that store on, was vouched for all along.
pub proof fn lemma_chain_on<V: Verifier>(
    verifier: V,
    options: Options,
    start: Entries,
    before: Entries,
    after: Entries,
)
    requires
        chain_of_trust(verifier, options, start, before),
        trusted_kept(start, before),
        chain_of_trust(verifier, options, before, after),
        trusted_kept(before, after),
    ensures
        chain_of_trust(verifier, options, start, after),
        trusted_kept(start, after),
{
    lemma_trusted_kept_on(start, before, after);
    assert forall|h: Height| #[trigger] holds(after, h, Status::Trusted) implies holds(
        start,
        h,
        Status::Trusted,
    ) || exists|anchor: Height, now: Time|
        vouches(verifier, options, after, anchor, h, now) by {
        if holds(before, h, Status::Trusted) && !holds(start, h, Status::Trusted) {
            let (anchor, now) = choose|anchor: Height, now: Time|
                vouches(verifier, options, before, anchor, h, now);
            assert(holds(before, anchor, Status::Trusted));
            assert(vouches(verifier, options, after, anchor, h, now));
        }
    }
}

/// A chain of trust stays one while the trusted blocks stay as they are and
/// no block is added to them.
pub proof fn lemma_chain_kept<V: Verifier>(
    verifier: V,
    options: Options,
    start: Entries,
    before: Entries,
    after: Entries,
)
    requires
        chain_of_trust(verifier, options, start, before),
        trusted_kept(start, before),
        trusted_kept(before, after),
        forall|h: Height| #[trigger]
            holds(after, h, Status::Trusted) ==> holds(before, h, Status::Trusted),
    ensures
        chain_of_trust(verifier, options, start, after),
        trusted_kept(start, after),
{
    assert forall|h: Height| #[trigger] holds(after, h, Status::Trusted) implies holds(
        start,
        h,
        Status::Trusted,
    ) || exists|anchor: Height, now: Time|
        vouches(verifier, options, after, anchor, h, now) by {
        assert(holds(before, h, Status::Trusted));
        if !holds(start, h, Status::Trusted) {
            let (anchor, now) = choose|anchor: Height, now: Time|
                vouches(verifier, options, before, anchor, h, now);
            assert(holds(before, anchor, Status::Trusted));
            assert(vouches(verifier, options, after, anchor, h, now));
        }
    }
}

/// A chain of trust stays one when a block that the verifier vouches for is
/// added to the trusted blocks.
pub proof fn lemma_chain_extended<V: Verifier>(
    verifier: V,
    options: Options,
    start: Entries,
    before: Entries,
    after: Entries,
    added: Height,
)
    requires
        chain_of_trust(verifier, options, start, before),
        trusted_kept(start, before),
        trusted_kept(before, after),
        forall|h: Height|
            h != added && #[trigger] holds(after, h, Status::Trusted) ==> holds(
                before,
                h,
                Status::Trusted,
            ),
        exists|anchor: Height, now: Time| vouches(verifier, options, after, anchor, added, now),
    ensures
        chain_of_trust(verifier, options, start, after),
        trusted_kept(start, after),
{
    assert forall|h: Height| #[trigger] holds(after, h, Status::Trusted) implies holds(
        start,
        h,
        Status::Trusted,
    ) || exists|anchor: Height, now: Time|
        vouches(verifier, options, after, anchor, h, now) by {
        if h != added {
            assert(holds(before, h, Status::Trusted));
            if !holds(start, h, Status::Trusted) {
                let (anchor, now) = choose|anchor: Height, now: Time|
                    vouches(verifier, options, before, anchor, h, now);
                assert(holds(before, anchor, Status::Trusted));
                assert(vouches(verifier, options, after, anchor, h, now));
            }
        }
    }
}

} // verus!
