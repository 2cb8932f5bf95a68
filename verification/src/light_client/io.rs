//! Where light blocks come from.

use crate::light_client::errors::IoError;
use crate::light_client::types::{Height, LightBlock, PeerId};
use vstd::prelude::*;

verus! {

/// Which block to fetch.
#[derive(Clone, Copy, Debug, PartialEq, Eq, Structural)]
pub enum AtHeight {
    /// The block at exactly this height.
    Exact(Height),
    /// The highest block that the peer has.
    Highest,
}

/// One request to a peer, and what came back.
pub struct Exchange {
    pub peer: PeerId,
    pub at: AtHeight,
    pub answer: Result<LightBlock, IoError>,
}

/// The requests that were made, each with what came back, first to last.
pub type Exchanges = Seq<Exchange>;

/// Fetches light blocks from peers. What comes back is whatever the peer
/// sent: nothing is known of it until it is verified.
pub trait Io {
    /// The requests that were made through this value so far.
    spec fn exchanges(&self) -> Exchanges;

    /// Fetches a light block from `peer`.
    fn fetch_light_block(&mut self, peer: PeerId, at: AtHeight) -> (answer: Result<
        LightBlock,
        IoError,
    >)
        ensures
            final(self).exchanges() == old(self).exchanges().push(Exchange { peer, at, answer }),
    ;
}

/// The exchanges `after` are the exchanges `before`, and then maybe more.
pub open spec fn extends(before: Exchanges, after: Exchanges) -> bool {
    &&& before.len() <= after.len()
    &&& forall|i: int| 0 <= i < before.len() ==> #[trigger] after[i] == before[i]
}

/// After the exchanges `before`, the peer was asked for the block at `at`,
/// and asked again while it failed in a way that may pass, at most
/// `max_retry_attempts` times again; `outcome` is what came back last.
pub open spec fn asked_with_retries(
    before: Exchanges,
    after: Exchanges,
    peer: PeerId,
    at: AtHeight,
    max_retry_attempts: u32,
    outcome: Result<LightBlock, IoError>,
) -> bool {
    &&& extends(before, after)
    &&& before.len() < after.len() <= before.len() + max_retry_attempts + 1
    &&& forall|i: int|
        before.len() <= i < after.len() ==> (#[trigger] after[i]).peer == peer && after[i].at == at
    &&& forall|i: int|
        before.len() <= i < after.len() - 1 ==> ((#[trigger] after[i]).answer matches Err(e)
            && e.transient())
    &&& after.last().answer == outcome
    &&& (outcome matches Err(e) && e.transient()) ==> after.len() == before.len()
        + max_retry_attempts + 1
}

/// What extends the exchanges that extend others extends these.
pub proof fn lemma_extends_on(first: Exchanges, second: Exchanges, third: Exchanges)
    requires
        extends(first, second),
        extends(second, third),
    ensures
        extends(first, third),
{
    assert forall|i: int| 0 <= i < first.len() implies #[trigger] third[i] == first[i] by {
        assert(second[i] == first[i]);
        assert(third[i] == second[i]);
    }
}

impl IoError {
    /// The error may pass: the peer did not answer in time, or answered
    /// with an error of its own. Asking again may help.
    pub open spec fn transient(self) -> bool {
        self is Timeout || self is RpcError
    }

    /// Tells whether asking again may help.
    pub fn is_transient(&self) -> (transient: bool)
        ensures
            transient == self.transient(),
    {
        match self {
            IoError::Timeout => true,
            IoError::RpcError(_) => true,
            _ => false,
        }
    }
}

/// Fetches a light block from `peer`, asking again up to `max_retry_attempts`
/// times while the peer fails in a way that may pass. Answers with the
/// block of the first request that brought one, or with the error of the
/// last request. An error that will not pass is not tried again.
pub fn fetch_with_retries<I: Io>(io: &mut I, peer: PeerId, at: AtHeight, max_retry_attempts: u32)
    -> (outcome: Result<LightBlock, IoError>)
    ensures
        asked_with_retries(
            old(io).exchanges(),
            final(io).exchanges(),
            peer,
            at,
            max_retry_attempts,
            outcome,
        ),
{
    let ghost before = io.exchanges();
    let mut left: u32 = max_retry_attempts;
    loop
        invariant
            left <= max_retry_attempts,
            before == old(io).exchanges(),
            extends(before, io.exchanges()),
            io.exchanges().len() == before.len() + (max_retry_attempts - left),
            forall|i: int|
                before.len() <= i < io.exchanges().len() ==> {
                    &&& (#[trigger] io.exchanges()[i]).peer == peer
                    &&& io.exchanges()[i].at == at
                    &&& io.exchanges()[i].answer matches Err(e) && e.transient()
                },
        decreases left,
    {
        let ghost so_far = io.exchanges();
        match io.fetch_light_block(peer, at) {
            Ok(block) => {
                proof {
                    lemma_asked_once_more(before, so_far, io.exchanges());
                }
                return Ok(block);
            },
            Err(e) => {
                proof {
                    lemma_asked_once_more(before, so_far, io.exchanges());
                }
                if left == 0 || !e.is_transient() {
                    return Err(e);
                }
                left = left - 1;
            },
        }
    }
}

/// One more exchange extends what extended the exchanges before, and leaves
/// the exchanges up to it as they were.
proof fn lemma_asked_once_more(before: Exchanges, so_far: Exchanges, now: Exchanges)
    requires
        extends(before, so_far),
        now.len() == so_far.len() + 1,
        forall|i: int| 0 <= i < so_far.len() ==> #[trigger] now[i] == so_far[i],
    ensures
        extends(before, now),
{
    assert forall|i: int| 0 <= i < before.len() implies #[trigger] now[i] == before[i] by {
        assert(so_far[i] == before[i]);
    }
}

} // verus!
