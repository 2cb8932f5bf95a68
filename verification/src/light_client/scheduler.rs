//! The scheduler: which height to fetch next on the way from the highest
//! trusted block to a target, by bisection.

use crate::light_client::store::{highest_at, holds, lowest_at, Entries, LightStore};
use crate::light_client::types::{Height, Status};
use vstd::prelude::*;

verus! {

/// What the scheduler tells the light client to do.
#[derive(Clone, Copy, Debug, PartialEq, Eq, Structural)]
pub enum Step {
    /// Fetch and verify the block at this height.
    Fetch(Height),
    /// The target is trusted: there is nothing left to do.
    Reached,
    /// The store holds no trusted block at or below the target to start
    /// from.
    Stuck,
}

/// The height to ask for between a trusted height and a pivot above it: the
/// pivot itself where it follows the trusted height directly, and otherwise
/// the midpoint, rounded towards the trusted height but never onto it.
pub open spec fn next_height(trusted_h: Height, pivot_h: Height) -> Height
    recommends
        trusted_h < pivot_h,
{
    if pivot_h == trusted_h + 1 {
        pivot_h
    } else {
        let mid = trusted_h + (pivot_h - trusted_h) / 2;
        if mid == trusted_h {
            (trusted_h + 1) as Height
        } else {
            mid as Height
        }
    }
}

/// The highest height, at or below `target`, at which the store holds a
/// trusted block.
pub open spec fn trusted_height(entries: Entries, target: Height) -> Option<Height> {
    if exists|h: Height| highest_at(entries, Status::Trusted, target, h) {
        Some(choose|h: Height| highest_at(entries, Status::Trusted, target, h))
    } else {
        None
    }
}

/// The pivot of the bisection above `trusted_h`: the lowest height above
/// it, and not above `target`, at which the store holds a verified block.
/// Such a block was looked at before and could not be trusted yet.
pub open spec fn pivot_height(entries: Entries, trusted_h: Height, target: Height) -> Option<
    Height,
> {
    if exists|h: Height| lowest_at(entries, Status::Verified, trusted_h, h) && h <= target {
        Some(choose|h: Height| lowest_at(entries, Status::Verified, trusted_h, h) && h <= target)
    } else {
        None
    }
}

/// What the scheduler proposes for a store and a target. With no trusted
/// block at or below the target it is stuck. With the target trusted it is
/// done. Otherwise it proposes the target itself while no block between the
/// highest trusted one and the target has been found short of trust, and
/// from then on bisects between the highest trusted block and the lowest
/// such block.
pub open spec fn schedule_of(entries: Entries, target: Height) -> Step {
    match trusted_height(entries, target) {
        None => Step::Stuck,
        Some(trusted_h) => if trusted_h == target {
            Step::Reached
        } else {
            match pivot_height(entries, trusted_h, target) {
                None => Step::Fetch(target),
                Some(pivot_h) => Step::Fetch(next_height(trusted_h, pivot_h)),
            }
        },
    }
}

/// There is one highest height with a status below a limit.
pub proof fn lemma_highest_unique(
    entries: Entries,
    status: Status,
    limit: Height,
    a: Height,
    b: Height,
)
    requires
        highest_at(entries, status, limit, a),
        highest_at(entries, status, limit, b),
    ensures
        a == b,
{
}

/// There is one lowest height with a status above a floor.
pub proof fn lemma_lowest_unique(
    entries: Entries,
    status: Status,
    floor: Height,
    a: Height,
    b: Height,
)
    requires
        lowest_at(entries, status, floor, a),
        lowest_at(entries, status, floor, b),
    ensures
        a == b,
{
}

/// Computes the height between a trusted height and a pivot above it that
/// is to be asked for next.
pub fn midpoint(trusted_h: Height, pivot_h: Height) -> (next: Height)
    requires
        trusted_h < pivot_h,
    ensures
        next == next_height(trusted_h, pivot_h),
        trusted_h < next <= pivot_h,
        pivot_h > trusted_h + 1 ==> next < pivot_h,
{
    if pivot_h == trusted_h + 1 {
        pivot_h
    } else {
        let mid: Height = trusted_h + (pivot_h - trusted_h) / 2;
        if mid == trusted_h {
            trusted_h + 1
        } else {
            mid
        }
    }
}

/// Proposes the next height to fetch on the way to `target_height`.
pub fn schedule<S: LightStore>(light_store: &S, target_height: Height) -> (step: Step)
    ensures
        step == schedule_of(light_store.entries(), target_height),
        step matches Step::Fetch(next) ==> {
            &&& trusted_height(light_store.entries(), target_height) matches Some(trusted_h)
            &&& trusted_h < next <= target_height
        },
{
    let ghost entries = light_store.entries();
    let trusted_h: Height = match light_store.highest_at_or_below(Status::Trusted, target_height) {
        None => {
            proof {
                assert forall|h: Height| !highest_at(
                    entries,
                    Status::Trusted,
                    target_height,
                    h,
                ) by {
                    if highest_at(entries, Status::Trusted, target_height, h) {
                        assert(holds(entries, h, Status::Trusted));
                    }
                }
            }
            return Step::Stuck;
        },
        Some(block) => block.height(),
    };
    proof {
        lemma_highest_unique(
            entries,
            Status::Trusted,
            target_height,
            trusted_h,
            choose|h: Height| highest_at(entries, Status::Trusted, target_height, h),
        );
    }
    if trusted_h == target_height {
        return Step::Reached;
    }
    match light_store.lowest_above(Status::Verified, trusted_h) {
        None => {
            proof {
                assert forall|h: Height| !lowest_at(entries, Status::Verified, trusted_h, h) by {
                    if lowest_at(entries, Status::Verified, trusted_h, h) {
                        assert(holds(entries, h, Status::Verified));
                    }
                }
            }
            Step::Fetch(target_height)
        },
        Some(block) => {
            let lowest: Height = block.height();
            proof {
                assert forall|h: Height|
                    lowest_at(entries, Status::Verified, trusted_h, h) implies h == lowest by {
                    lemma_lowest_unique(entries, Status::Verified, trusted_h, h, lowest);
                }
            }
            if lowest <= target_height {
                Step::Fetch(midpoint(trusted_h, lowest))
            } else {
                Step::Fetch(target_height)
            }
        },
    }
}

/// The heights that the scheduler proposes in turn below a pivot, while
/// none of them can be trusted yet: each becomes the next pivot, down to
/// the height that follows the trusted one.
pub open spec fn descent(trusted_h: Height, pivot_h: Height) -> Seq<Height>
    decreases pivot_h - trusted_h,
{
    if pivot_h <= trusted_h + 1 {
        Seq::empty()
    } else {
        let next = next_height(trusted_h, pivot_h);
        seq![next] + descent(trusted_h, next)
    }
}

/// The heights that the scheduler proposes in turn on the way from a
/// trusted height to a target above it, while none of them can be trusted
/// yet: the target first, then the heights of the descent below it.
pub open spec fn proposals(trusted_h: Height, target: Height) -> Seq<Height> {
    seq![target] + descent(trusted_h, target)
}

/// The logarithm to the base two of `n`, rounded up.
pub open spec fn ceil_log2(n: nat) -> nat
    decreases n,
{
    if n <= 1 {
        0
    } else {
        1 + ceil_log2((n + 1) / 2)
    }
}

/// The rounded-up logarithm grows with its argument.
pub proof fn lemma_ceil_log2_monotone(a: nat, b: nat)
    requires
        a <= b,
    ensures
        ceil_log2(a) <= ceil_log2(b),
    decreases b,
{
    if a > 1 {
        lemma_ceil_log2_monotone((a + 1) / 2, (b + 1) / 2);
    }
}

/// The descent below a pivot is short: it holds at most
/// `ceil_log2(pivot_h - trusted_h)` heights. They descend strictly, and
/// each lies above the trusted height and below the pivot.
pub proof fn lemma_descent_is_logarithmic(trusted_h: Height, pivot_h: Height)
    requires
        trusted_h <= pivot_h,
    ensures
        descent(trusted_h, pivot_h).len() <= ceil_log2((pivot_h - trusted_h) as nat),
        forall|i: int|
            0 <= i < descent(trusted_h, pivot_h).len() ==> trusted_h < #[trigger] descent(
                trusted_h,
                pivot_h,
            )[i] < pivot_h,
        forall|i: int, j: int|
            0 <= i < j < descent(trusted_h, pivot_h).len() ==> descent(trusted_h, pivot_h)[j]
                < descent(trusted_h, pivot_h)[i],
    decreases pivot_h - trusted_h,
{
    if pivot_h > trusted_h + 1 {
        let gap = (pivot_h - trusted_h) as nat;
        let next = next_height(trusted_h, pivot_h);
        assert(next == trusted_h + gap / 2);
        lemma_descent_is_logarithmic(trusted_h, next);
        lemma_ceil_log2_monotone(gap / 2, (gap + 1) / 2);
        let rest = descent(trusted_h, next);
        let all = descent(trusted_h, pivot_h);
        assert(all =~= seq![next] + rest);
        assert forall|i: int| 0 <= i < all.len() implies trusted_h < #[trigger] all[i]
            < pivot_h by {
            if i > 0 {
                assert(all[i] == rest[i - 1]);
            }
        }
        assert forall|i: int, j: int| 0 <= i < j < all.len() implies all[j] < all[i] by {
            assert(all[j] == rest[j - 1]);
            if i > 0 {
                assert(all[i] == rest[i - 1]);
            }
        }
    }
}

/// Bisection is short: on the way from a trusted height to a target above
/// it, the scheduler proposes at most `ceil_log2(target - trusted_h) + 1`
/// heights while none of them can be trusted yet. No height is proposed
/// twice, and each lies above the trusted height and not above the target.
pub proof fn law_bisection_is_logarithmic(trusted_h: Height, target: Height)
    requires
        trusted_h < target,
    ensures
        proposals(trusted_h, target).len() <= ceil_log2((target - trusted_h) as nat) + 1,
        forall|i: int|
            0 <= i < proposals(trusted_h, target).len() ==> trusted_h < #[trigger] proposals(
                trusted_h,
                target,
            )[i] <= target,
        forall|i: int, j: int|
            0 <= i < j < proposals(trusted_h, target).len() ==> proposals(trusted_h, target)[j]
                < proposals(trusted_h, target)[i],
{
    lemma_descent_is_logarithmic(trusted_h, target);
    let rest = descent(trusted_h, target);
    let all = proposals(trusted_h, target);
    assert forall|i: int| 0 <= i < all.len() implies trusted_h < #[trigger] all[i] <= target by {
        if i > 0 {
            assert(all[i] == rest[i - 1]);
        }
    }
    assert forall|i: int, j: int| 0 <= i < j < all.len() implies all[j] < all[i] by {
        assert(all[j] == rest[j - 1]);
        if i > 0 {
            assert(all[i] == rest[i - 1]);
        }
    }
}

} // verus!
