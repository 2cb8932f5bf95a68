//! The light store: the light blocks that a light client holds, by height,
//! each with its status.

use crate::light_client::types::{Height, LightBlock, Status};
use vstd::prelude::*;

verus! {

/// A light block in the store, with its status.
#[derive(Clone, Debug, PartialEq, Eq)]
pub struct StoreEntry {
    pub status: Status,
    pub block: LightBlock,
}

/// What a store holds: at most one entry per height.
pub type Entries = Map<Height, StoreEntry>;

/// The store holds a block at `height`, and its status is `status`.
pub open spec fn holds(entries: Entries, height: Height, status: Status) -> bool {
    entries.contains_key(height) && entries[height].status == status
}

/// Every entry is kept under the height of its block.
pub open spec fn by_height(entries: Entries) -> bool {
    forall|h: Height| #[trigger] entries.contains_key(h) ==> entries[h].block@.height() == h
}

/// The store may put a block with `status` in the place of what it holds at
/// that height: a trusted block is never replaced, a failed block gives way
/// to any other, and otherwise the status never moves backwards.
pub open spec fn admits(entries: Entries, height: Height, status: Status) -> bool {
    entries.contains_key(height) ==> {
        &&& !(entries[height].status is Trusted)
        &&& (entries[height].status is Failed || entries[height].status.may_become(status))
    }
}

/// The store after `insert`: the block is kept under its height with the
/// given status where the store admits it, and nothing changes otherwise.
pub open spec fn after_insert(entries: Entries, block: LightBlock, status: Status) -> Entries {
    if admits(entries, block@.height(), status) {
        entries.insert(block@.height(), StoreEntry { status, block })
    } else {
        entries
    }
}

/// The store after `update`: the block at `height` passes to `status` where
/// it is there and may do so, and nothing changes otherwise.
pub open spec fn after_update(entries: Entries, height: Height, status: Status) -> Entries {
    if entries.contains_key(height) && entries[height].status.may_become(status) {
        entries.insert(height, StoreEntry { status, block: entries[height].block })
    } else {
        entries
    }
}

/// `height` is the greatest height, not above `limit`, at which the store
/// holds a block with `status`.
pub open spec fn highest_at(entries: Entries, status: Status, limit: Height, height: Height)
    -> bool {
    &&& holds(entries, height, status)
    &&& height <= limit
    &&& forall|h: Height| #[trigger] holds(entries, h, status) && h <= limit ==> h <= height
}

/// `height` is the least height, above `floor`, at which the store holds a
/// block with `status`.
pub open spec fn lowest_at(entries: Entries, status: Status, floor: Height, height: Height)
    -> bool {
    &&& holds(entries, height, status)
    &&& height > floor
    &&& forall|h: Height| #[trigger] holds(entries, h, status) && h > floor ==> height <= h
}

/// The store holds a trusted or a verified block at `height`.
pub open spec fn holds_anchor(entries: Entries, height: Height) -> bool {
    holds(entries, height, Status::Trusted) || holds(entries, height, Status::Verified)
}

/// `height` is the greatest height, below `limit`, at which the store holds
/// a trusted or a verified block.
pub open spec fn highest_anchor_at(entries: Entries, limit: Height, height: Height) -> bool {
    &&& holds_anchor(entries, height)
    &&& height < limit
    &&& forall|h: Height| #[trigger] holds_anchor(entries, h) && h < limit ==> h <= height
}

/// Persistence of light blocks by height and status. A store never moves
/// the status of a block backwards, and never replaces a trusted block.
/// Only a block whose verification failed gives way to a block that is put
/// in afresh.
pub trait LightStore {
    /// What the store holds.
    spec fn entries(&self) -> Entries;

    /// The block at `height`, if the store holds one with exactly the
    /// status `status`.
    fn get(&self, height: Height, status: Status) -> (found: Option<&LightBlock>)
        ensures
            by_height(self.entries()),
            match found {
                Some(block) => holds(self.entries(), height, status) && *block
                    == self.entries()[height].block,
                None => !holds(self.entries(), height, status),
            },
    ;

    /// Puts `block` in the store with `status`, under the block's height.
    /// Tells whether the store admitted it.
    fn insert(&mut self, block: LightBlock, status: Status) -> (stored: bool)
        ensures
            stored == admits(old(self).entries(), block@.height(), status),
            final(self).entries() == after_insert(old(self).entries(), block, status),
    ;

    /// Moves the block at `height` to `new_status`. Tells whether there is
    /// a block at that height that may pass to the status.
    fn update(&mut self, height: Height, new_status: Status) -> (updated: bool)
        ensures
            updated == (old(self).entries().contains_key(height) && old(self).entries()[height].status.may_become(new_status)),
            final(self).entries() == after_update(old(self).entries(), height, new_status),
    ;

    /// The highest block, not above `limit`, with exactly the status
    /// `status`.
    fn highest_at_or_below(&self, status: Status, limit: Height) -> (found: Option<&LightBlock>)
        ensures
            by_height(self.entries()),
            match found {
                Some(block) => highest_at(self.entries(), status, limit, block@.height()) && *block
                    == self.entries()[block@.height()].block,
                None => forall|h: Height| #[trigger]
                    holds(self.entries(), h, status) ==> h > limit,
            },
    ;

    /// The lowest block, above `floor`, with exactly the status `status`.
    fn lowest_above(&self, status: Status, floor: Height) -> (found: Option<&LightBlock>)
        ensures
            by_height(self.entries()),
            match found {
                Some(block) => lowest_at(self.entries(), status, floor, block@.height()) && *block
                    == self.entries()[block@.height()].block,
                None => forall|h: Height| #[trigger]
                    holds(self.entries(), h, status) ==> h <= floor,
            },
    ;

    /// The highest block with exactly the status `status`.
    fn latest(&self, status: Status) -> (found: Option<&LightBlock>)
        ensures
            by_height(self.entries()),
            match found {
                Some(block) => highest_at(self.entries(), status, u64::MAX, block@.height())
                    && *block == self.entries()[block@.height()].block,
                None => forall|h: Height| !#[trigger] holds(self.entries(), h, status),
            },
    {
        self.highest_at_or_below(status, u64::MAX)
    }

    /// The highest block below `height` that is trusted or verified.
    fn highest_trusted_or_verified_below(&self, height: Height) -> (found: Option<&LightBlock>)
        ensures
            match found {
                Some(block) => highest_anchor_at(self.entries(), height, block@.height()) && *block
                    == self.entries()[block@.height()].block,
                None => forall|h: Height| #[trigger]
                    holds_anchor(self.entries(), h) ==> h >= height,
            },
    {
        if height == 0 {
            return None;
        }
        let trusted = self.highest_at_or_below(Status::Trusted, height - 1);
        let verified = self.highest_at_or_below(Status::Verified, height - 1);
        match (trusted, verified) {
            (None, None) => None,
            (Some(t), None) => Some(t),
            (None, Some(v)) => Some(v),
            (Some(t), Some(v)) => if t.height() >= v.height() {
                Some(t)
            } else {
                Some(v)
            },
        }
    }
}

/// `i` is the first place among `slots` that holds a block of `height`.
pub open spec fn first_slot(slots: Seq<StoreEntry>, height: Height, i: int) -> bool {
    &&& 0 <= i < slots.len()
    &&& slots[i].block@.height() == height
    &&& forall|j: int| 0 <= j < i ==> (#[trigger] slots[j]).block@.height() != height
}

/// What a sequence of slots holds: for each height, the first slot with a
/// block of that height.
pub open spec fn entries_of(slots: Seq<StoreEntry>) -> Entries {
    Map::new(
        |h: Height| exists|i: int| first_slot(slots, h, i),
        |h: Height| slots[choose|i: int| first_slot(slots, h, i)],
    )
}

proof fn lemma_first_slot_unique(slots: Seq<StoreEntry>, height: Height, i: int, j: int)
    requires
        first_slot(slots, height, i),
        first_slot(slots, height, j),
    ensures
        i == j,
{
    if i < j {
        assert(slots[i].block@.height() != height);
    } else if j < i {
        assert(slots[j].block@.height() != height);
    }
}

proof fn lemma_some_first_slot(slots: Seq<StoreEntry>, height: Height, j: int)
    requires
        0 <= j < slots.len(),
        slots[j].block@.height() == height,
    ensures
        exists|i: int| first_slot(slots, height, i),
    decreases j,
{
    if forall|k: int| 0 <= k < j ==> (#[trigger] slots[k]).block@.height() != height {
        assert(first_slot(slots, height, j));
    } else {
        let k = choose|k: int| 0 <= k < j && (#[trigger] slots[k]).block@.height() == height;
        lemma_some_first_slot(slots, height, k);
    }
}

/// What the slots hold at a height is what the first slot of that height
/// holds; they hold nothing at a height that no slot has.
proof fn lemma_entries_of(slots: Seq<StoreEntry>, height: Height)
    ensures
        entries_of(slots).contains_key(height) <==> exists|i: int|
            0 <= i < slots.len() && (#[trigger] slots[i]).block@.height() == height,
        forall|i: int|
            first_slot(slots, height, i) ==> entries_of(slots).contains_key(height)
                && entries_of(slots)[height] == slots[i],
        entries_of(slots).contains_key(height) ==> entries_of(slots)[height].block@.height()
            == height,
{
    if exists|i: int| 0 <= i < slots.len() && (#[trigger] slots[i]).block@.height() == height {
        let i = choose|i: int|
            0 <= i < slots.len() && (#[trigger] slots[i]).block@.height() == height;
        lemma_some_first_slot(slots, height, i);
    }
    assert forall|i: int| first_slot(slots, height, i) implies entries_of(slots).contains_key(
        height,
    ) && entries_of(slots)[height] == slots[i] by {
        let c = choose|c: int| first_slot(slots, height, c);
        lemma_first_slot_unique(slots, height, i, c);
    }
}

proof fn lemma_by_height(slots: Seq<StoreEntry>)
    ensures
        by_height(entries_of(slots)),
{
    assert forall|h: Height| #[trigger] entries_of(slots).contains_key(h) implies entries_of(
        slots,
    )[h].block@.height() == h by {
        lemma_entries_of(slots, h);
    }
}

/// The store that keeps its blocks in memory.
#[derive(Clone, Debug)]
pub struct MemoryStore {
    slots: Vec<StoreEntry>,
}

impl MemoryStore {
    /// A store that holds nothing.
    pub fn new() -> (store: MemoryStore)
        ensures
            store.entries() == Entries::empty(),
    {
        let store = MemoryStore { slots: Vec::new() };
        proof {
            assert(store.entries() =~= Entries::empty());
        }
        store
    }

    /// The first slot that holds a block of `height`.
    fn slot(&self, height: Height) -> (found: Option<usize>)
        ensures
            match found {
                Some(i) => first_slot(self.slots@, height, i as int),
                None => forall|j: int|
                    0 <= j < self.slots@.len() ==> (#[trigger] self.slots@[j]).block@.height()
                        != height,
            },
    {
        let mut i: usize = 0;
        while i < self.slots.len()
            invariant
                i <= self.slots.len(),
                forall|j: int|
                    0 <= j < i ==> (#[trigger] self.slots@[j]).block@.height() != height,
            decreases self.slots.len() - i,
        {
            if self.slots[i].block.height() == height {
                return Some(i);
            }
            i += 1;
        }
        None
    }
}

impl LightStore for MemoryStore {
    closed spec fn entries(&self) -> Entries {
        entries_of(self.slots@)
    }

    fn get(&self, height: Height, status: Status) -> (found: Option<&LightBlock>) {
        proof {
            lemma_by_height(self.slots@);
            lemma_entries_of(self.slots@, height);
        }
        match self.slot(height) {
            None => None,
            Some(i) => {
                if self.slots[i].status == status {
                    Some(&self.slots[i].block)
                } else {
                    None
                }
            },
        }
    }

    fn insert(&mut self, block: LightBlock, status: Status) -> (stored: bool) {
        let height = block.height();
        let ghost before = self.slots@;
        proof {
            lemma_entries_of(before, height);
        }
        match self.slot(height) {
            None => {
                self.slots.push(StoreEntry { status, block });
                proof {
                    lemma_appended(before, self.slots@, height);
                }
                true
            },
            Some(i) => {
                let old_status = self.slots[i].status;
                if old_status != Status::Trusted && (old_status == Status::Failed
                    || old_status.can_become(status)) {
                    self.slots.set(i, StoreEntry { status, block });
                    proof {
                        lemma_replaced(before, self.slots@, i as int, height);
                    }
                    true
                } else {
                    false
                }
            },
        }
    }

    fn update(&mut self, height: Height, new_status: Status) -> (updated: bool) {
        let ghost before = self.slots@;
        proof {
            lemma_entries_of(before, height);
        }
        match self.slot(height) {
            None => false,
            Some(i) => {
                if self.slots[i].status.can_become(new_status) {
                    set_status(&mut self.slots, i, new_status);
                    proof {
                        lemma_replaced(before, self.slots@, i as int, height);
                    }
                    true
                } else {
                    false
                }
            },
        }
    }

    fn highest_at_or_below(&self, status: Status, limit: Height) -> (found: Option<&LightBlock>) {
        proof {
            lemma_by_height(self.slots@);
        }
        let mut best: Option<usize> = None;
        let mut i: usize = 0;
        while i < self.slots.len()
            invariant
                i <= self.slots.len(),
                match best {
                    Some(b) => b < i && eligible_below(self.slots@, status, limit, b as int)
                        && forall|j: int|
                        0 <= j < i && #[trigger] eligible_below(self.slots@, status, limit, j)
                            ==> self.slots@[j].block@.height()
                            <= self.slots@[b as int].block@.height(),
                    None => forall|j: int|
                        0 <= j < i ==> !#[trigger] eligible_below(self.slots@, status, limit, j),
                },
            decreases self.slots.len() - i,
        {
            let height = self.slots[i].block.height();
            if height <= limit && self.slots[i].status == status {
                let first: bool = match self.slot(height) {
                    Some(k) => k == i,
                    None => false,
                };
                if first {
                    let better: bool = match best {
                        Some(b) => self.slots[b].block.height() < height,
                        None => true,
                    };
                    if better {
                        best = Some(i);
                    }
                }
            }
            i += 1;
        }
        match best {
            None => {
                proof {
                    assert forall|h: Height| #[trigger]
                        holds(self.entries(), h, status) implies h > limit by {
                        lemma_entries_of(self.slots@, h);
                        if h <= limit {
                            let k = choose|k: int| first_slot(self.slots@, h, k);
                            assert(eligible_below(self.slots@, status, limit, k));
                        }
                    }
                }
                None
            },
            Some(b) => {
                proof {
                    let top = self.slots@[b as int].block@.height();
                    lemma_entries_of(self.slots@, top);
                    assert forall|h: Height| #[trigger]
                        holds(self.entries(), h, status) && h <= limit implies h <= top by {
                        lemma_entries_of(self.slots@, h);
                        let k = choose|k: int| first_slot(self.slots@, h, k);
                        assert(eligible_below(self.slots@, status, limit, k));
                    }
                }
                Some(&self.slots[b].block)
            },
        }
    }

    fn lowest_above(&self, status: Status, floor: Height) -> (found: Option<&LightBlock>) {
        proof {
            lemma_by_height(self.slots@);
        }
        let mut best: Option<usize> = None;
        let mut i: usize = 0;
        while i < self.slots.len()
            invariant
                i <= self.slots.len(),
                match best {
                    Some(b) => b < i && eligible_above(self.slots@, status, floor, b as int)
                        && forall|j: int|
                        0 <= j < i && #[trigger] eligible_above(self.slots@, status, floor, j)
                            ==> self.slots@[b as int].block@.height()
                            <= self.slots@[j].block@.height(),
                    None => forall|j: int|
                        0 <= j < i ==> !#[trigger] eligible_above(self.slots@, status, floor, j),
                },
            decreases self.slots.len() - i,
        {
            let height = self.slots[i].block.height();
            if height > floor && self.slots[i].status == status {
                let first: bool = match self.slot(height) {
                    Some(k) => k == i,
                    None => false,
                };
                if first {
                    let better: bool = match best {
                        Some(b) => height < self.slots[b].block.height(),
                        None => true,
                    };
                    if better {
                        best = Some(i);
                    }
                }
            }
            i += 1;
        }
        match best {
            None => {
                proof {
                    assert forall|h: Height| #[trigger]
                        holds(self.entries(), h, status) implies h <= floor by {
                        lemma_entries_of(self.slots@, h);
                        if h > floor {
                            let k = choose|k: int| first_slot(self.slots@, h, k);
                            assert(eligible_above(self.slots@, status, floor, k));
                        }
                    }
                }
                None
            },
            Some(b) => {
                proof {
                    let low = self.slots@[b as int].block@.height();
                    lemma_entries_of(self.slots@, low);
                    assert forall|h: Height| #[trigger]
                        holds(self.entries(), h, status) && h > floor implies low <= h by {
                        lemma_entries_of(self.slots@, h);
                        let k = choose|k: int| first_slot(self.slots@, h, k);
                        assert(eligible_above(self.slots@, status, floor, k));
                    }
                }
                Some(&self.slots[b].block)
            },
        }
    }
}

/// Slot `i` is the first of its height, holds the status `status`, and its
/// height is not above `limit`.
pub open spec fn eligible_below(slots: Seq<StoreEntry>, status: Status, limit: Height, i: int)
    -> bool {
    &&& first_slot(slots, slots[i].block@.height(), i)
    &&& slots[i].status == status
    &&& slots[i].block@.height() <= limit
}

/// Slot `i` is the first of its height, holds the status `status`, and its
/// height is above `floor`.
pub open spec fn eligible_above(slots: Seq<StoreEntry>, status: Status, floor: Height, i: int)
    -> bool {
    &&& first_slot(slots, slots[i].block@.height(), i)
    &&& slots[i].status == status
    &&& slots[i].block@.height() > floor
}

/// Gives the entry in slot `i` the status `status`.
fn set_status(slots: &mut Vec<StoreEntry>, i: usize, status: Status)
    requires
        i < old(slots)@.len(),
    ensures
        final(slots)@ == old(slots)@.update(
            i as int,
            StoreEntry { status, block: old(slots)@[i as int].block },
        ),
{
    let entry = slots.remove(i);
    slots.insert(i, StoreEntry { status, block: entry.block });
    assert(slots@ =~= old(slots)@.update(
        i as int,
        StoreEntry { status, block: old(slots)@[i as int].block },
    ));
}

/// Replacing the first slot of a height by an entry of the same height
/// replaces what the store holds at that height, and nothing else.
proof fn lemma_replaced(before: Seq<StoreEntry>, after: Seq<StoreEntry>, i: int, height: Height)
    requires
        first_slot(before, height, i),
        after.len() == before.len(),
        after == before.update(i, after[i]),
        after[i].block@.height() == height,
    ensures
        entries_of(after) == entries_of(before).insert(height, after[i]),
{
    let a = entries_of(after);
    let b = entries_of(before).insert(height, after[i]);
    assert(first_slot(after, height, i)) by {
        assert forall|j: int| 0 <= j < i implies (#[trigger] after[j]).block@.height()
            != height by {
            assert(before[j].block@.height() != height);
        }
    }
    assert forall|h: Height|
        #![trigger a.dom().contains(h)]
        #![trigger b.dom().contains(h)]
        a.dom().contains(h) == b.dom().contains(h) && (a.dom().contains(h) ==> a[h] == b[h]) by {
        lemma_entries_of(after, h);
        lemma_entries_of(before, h);
        if h != height {
            if entries_of(before).contains_key(h) {
                let k = choose|k: int| first_slot(before, h, k);
                assert(k != i);
                assert forall|j: int| 0 <= j < k implies (#[trigger] after[j]).block@.height()
                    != h by {
                    if j != i {
                        assert(before[j].block@.height() != h);
                    }
                }
                assert(first_slot(after, h, k));
            }
            if entries_of(after).contains_key(h) {
                let k = choose|k: int| first_slot(after, h, k);
                assert(k != i);
                assert forall|j: int| 0 <= j < k implies (#[trigger] before[j]).block@.height()
                    != h by {
                    if j != i {
                        assert(after[j].block@.height() != h);
                    }
                }
                assert(first_slot(before, h, k));
            }
        }
    }
    assert(a =~= b);
}

/// Appending an entry of a height that no slot has adds it to what the
/// store holds, and changes nothing else.
proof fn lemma_appended(before: Seq<StoreEntry>, after: Seq<StoreEntry>, height: Height)
    requires
        after.len() == before.len() + 1,
        after == before.push(after[before.len() as int]),
        after[before.len() as int].block@.height() == height,
        forall|j: int| 0 <= j < before.len() ==> (#[trigger] before[j]).block@.height() != height,
    ensures
        entries_of(after) == entries_of(before).insert(height, after[before.len() as int]),
{
    let n = before.len() as int;
    let a = entries_of(after);
    let b = entries_of(before).insert(height, after[n]);
    assert(first_slot(after, height, n)) by {
        assert forall|j: int| 0 <= j < n implies (#[trigger] after[j]).block@.height()
            != height by {
            assert(before[j].block@.height() != height);
        }
    }
    assert forall|h: Height|
        #![trigger a.dom().contains(h)]
        #![trigger b.dom().contains(h)]
        a.dom().contains(h) == b.dom().contains(h) && (a.dom().contains(h) ==> a[h] == b[h]) by {
        lemma_entries_of(after, h);
        lemma_entries_of(before, h);
        if h != height {
            if entries_of(before).contains_key(h) {
                let k = choose|k: int| first_slot(before, h, k);
                assert forall|j: int| 0 <= j < k implies (#[trigger] after[j]).block@.height()
                    != h by {
                    assert(before[j].block@.height() != h);
                }
                assert(first_slot(after, h, k));
            }
            if entries_of(after).contains_key(h) {
                let k = choose|k: int| first_slot(after, h, k);
                assert(k < n);
                assert forall|j: int| 0 <= j < k implies (#[trigger] before[j]).block@.height()
                    != h by {
                    assert(after[j].block@.height() != h);
                }
                assert(first_slot(before, h, k));
            }
        }
    }
    assert(a =~= b);
}

/// What can be done to a store.
pub enum StoreOp {
    Insert(LightBlock, Status),
    Update(Height, Status),
}

/// The store after one operation.
pub open spec fn after_op(entries: Entries, op: StoreOp) -> Entries {
    match op {
        StoreOp::Insert(block, status) => after_insert(entries, block, status),
        StoreOp::Update(height, status) => after_update(entries, height, status),
    }
}

/// The store after a sequence of operations, made in order.
pub open spec fn after_ops(entries: Entries, ops: Seq<StoreOp>) -> Entries
    decreases ops.len(),
{
    if ops.len() == 0 {
        entries
    } else {
        after_op(after_ops(entries, ops.drop_last()), ops.last())
    }
}

/// Whatever is done to a store, a block that it holds as trusted stays in
/// it, unchanged and trusted.
pub proof fn law_trusted_stays_trusted(entries: Entries, ops: Seq<StoreOp>, height: Height)
    requires
        holds(entries, height, Status::Trusted),
    ensures
        holds(after_ops(entries, ops), height, Status::Trusted),
        after_ops(entries, ops)[height] == entries[height],
    decreases ops.len(),
{
    if ops.len() > 0 {
        law_trusted_stays_trusted(entries, ops.drop_last(), height);
    }
}

} // verus!
