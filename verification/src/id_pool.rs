//! Smallest-available-integer allocator.
//!
//! A pool is the set of ids that are currently held. Allocation hands out the
//! least positive integer outside that set; release removes an id from it.

use std::collections::BTreeSet;
use vstd::prelude::*;
use vstd::std_specs::btree::*;

verus! {

broadcast use group_btree_axioms;

/// The value that stands for "no id": an empty slot or a failed allocation.
pub const NO_ID: i32 = -1;

/// `id` is positive, not in `held`, and every smaller positive integer is in `held`.
pub open spec fn is_smallest_free(held: Set<int>, id: int) -> bool {
    &&& id >= 1
    &&& !held.contains(id)
    &&& forall|j: int| 1 <= j < id ==> held.contains(j)
}

/// Every positive integer up to `top` is in `held`.
pub open spec fn all_held_up_to(held: Set<int>, top: int) -> bool {
    forall|j: int| 1 <= j <= top ==> held.contains(j)
}

/// The least positive integer that is not in `held`.
pub open spec fn smallest_free(held: Set<int>) -> int {
    choose|id: int| is_smallest_free(held, id)
}

/// The id that a pool over the integers up to `top` hands out when it holds
/// `held`: the least free positive one, or `NO_ID` when all of them are held.
pub open spec fn issued(held: Set<int>, top: int) -> int {
    if all_held_up_to(held, top) {
        NO_ID as int
    } else {
        smallest_free(held)
    }
}

/// What a pool holds after it has handed out `issued(held, top)`.
pub open spec fn held_after_issue(held: Set<int>, top: int) -> Set<int> {
    if all_held_up_to(held, top) {
        held
    } else {
        held.insert(smallest_free(held))
    }
}

/// The id that a container hands out next: `NO_ID` when it already keeps
/// `count` entries of at most `capacity`, or when every positive `i32` is
/// held; the least free id otherwise.
pub open spec fn next_id(held: Set<int>, count: nat, capacity: usize) -> int {
    if count >= capacity || all_held_up_to(held, i32::MAX as int) {
        NO_ID as int
    } else {
        smallest_free(held)
    }
}

/// There is at most one least free id, so `smallest_free` names it.
pub proof fn lemma_smallest_free_unique(held: Set<int>, id: int)
    requires
        is_smallest_free(held, id),
    ensures
        smallest_free(held) == id,
{
    let other = smallest_free(held);
    assert(is_smallest_free(held, other));
    if other < id {
        assert(held.contains(other));
    } else if id < other {
        assert(held.contains(id));
    }
}

/// Where some positive integer up to `bound` is free, there is a least free
/// one, and it is at most `bound`.
pub proof fn lemma_smallest_free_exists(held: Set<int>, bound: int)
    requires
        !all_held_up_to(held, bound),
    ensures
        is_smallest_free(held, smallest_free(held)),
        1 <= smallest_free(held) <= bound,
    decreases bound,
{
    let free = choose|j: int| 1 <= j <= bound && !held.contains(j);
    assert(1 <= free <= bound && !held.contains(free));
    if all_held_up_to(held, bound - 1) {
        assert(free == bound);
        assert(is_smallest_free(held, bound));
        lemma_smallest_free_unique(held, bound);
    } else {
        lemma_smallest_free_exists(held, bound - 1);
    }
}

/// A pool of ids of the integer type `IdType`: the set of those that are held.
/// It is not synchronized; whoever shares it guards it.
pub struct IdPool<IdType> {
    pool: BTreeSet<IdType>,
}

impl IdPool<i32> {
    /// The ids that are currently held, as mathematical integers.
    pub closed spec fn held(&self) -> Set<int> {
        Set::new(|i: int| i32::MIN <= i <= i32::MAX && self.pool@.contains(i as i32))
    }

    pub fn new() -> (pool: Self)
        ensures
            pool.held() == Set::<int>::empty(),
    {
        let pool = Self { pool: BTreeSet::new() };
        assert(pool.held() =~= Set::<int>::empty());
        pool
    }

    /// Hands out the least positive id that is not held and records it as held.
    /// When every positive `i32` is held, nothing changes and the result is `NO_ID`.
    pub fn alloc_id(&mut self) -> (id: i32)
        ensures
            id == issued(old(self).held(), i32::MAX as int),
            final(self).held() == held_after_issue(old(self).held(), i32::MAX as int),
            id == NO_ID <==> all_held_up_to(old(self).held(), i32::MAX as int),
            id != NO_ID ==> is_smallest_free(old(self).held(), id as int),
            id != NO_ID ==> final(self).held() == old(self).held().insert(id as int),
            id == NO_ID ==> final(self).held() == old(self).held(),
    {
        let mut cnt: i32 = 1;
        while self.pool.contains(&cnt)
            invariant
                1 <= cnt,
                *self == *old(self),
                forall|j: int| 1 <= j < cnt ==> self.held().contains(j),
            decreases i32::MAX - cnt,
        {
            assert(self.held().contains(cnt as int));
            if cnt == i32::MAX {
                return NO_ID;
            }
            cnt = cnt + 1;
        }
        assert(!self.held().contains(cnt as int));
        self.pool.insert(cnt);
        assert(self.held() =~= old(self).held().insert(cnt as int));
        proof {
            lemma_smallest_free_unique(old(self).held(), cnt as int);
        }
        cnt
    }

    /// Releases `id`. Returns whether it was held.
    pub fn dealloc_id(&mut self, id: i32) -> (was_held: bool)
        ensures
            was_held == old(self).held().contains(id as int),
            final(self).held() == old(self).held().remove(id as int),
    {
        let was_held = self.pool.remove(&id);
        assert(self.held() =~= old(self).held().remove(id as int));
        was_held
    }
}

impl IdPool<i64> {
    /// The ids that are currently held, as mathematical integers.
    pub closed spec fn held(&self) -> Set<int> {
        Set::new(|i: int| i64::MIN <= i <= i64::MAX && self.pool@.contains(i as i64))
    }

    pub fn new() -> (pool: Self)
        ensures
            pool.held() == Set::<int>::empty(),
    {
        let pool = Self { pool: BTreeSet::new() };
        assert(pool.held() =~= Set::<int>::empty());
        pool
    }

    /// Hands out the least positive id that is not held and records it as held.
    /// When every positive `i64` is held, nothing changes and the result is `NO_ID`.
    pub fn alloc_id(&mut self) -> (id: i64)
        ensures
            id == issued(old(self).held(), i64::MAX as int),
            final(self).held() == held_after_issue(old(self).held(), i64::MAX as int),
            id == NO_ID <==> all_held_up_to(old(self).held(), i64::MAX as int),
            id != NO_ID ==> is_smallest_free(old(self).held(), id as int),
            id != NO_ID ==> final(self).held() == old(self).held().insert(id as int),
            id == NO_ID ==> final(self).held() == old(self).held(),
    {
        let mut cnt: i64 = 1;
        while self.pool.contains(&cnt)
            invariant
                1 <= cnt,
                *self == *old(self),
                forall|j: int| 1 <= j < cnt ==> self.held().contains(j),
            decreases i64::MAX - cnt,
        {
            assert(self.held().contains(cnt as int));
            if cnt == i64::MAX {
                return NO_ID as i64;
            }
            cnt = cnt + 1;
        }
        assert(!self.held().contains(cnt as int));
        self.pool.insert(cnt);
        assert(self.held() =~= old(self).held().insert(cnt as int));
        proof {
            lemma_smallest_free_unique(old(self).held(), cnt as int);
        }
        cnt
    }

    /// Releases `id`. Returns whether it was held.
    pub fn dealloc_id(&mut self, id: i64) -> (was_held: bool)
        ensures
            was_held == old(self).held().contains(id as int),
            final(self).held() == old(self).held().remove(id as int),
    {
        let was_held = self.pool.remove(&id);
        assert(self.held() =~= old(self).held().remove(id as int));
        was_held
    }
}

/// One call on a pool.
pub enum PoolOp {
    Alloc,
    Dealloc(int),
}

/// What a pool over the integers up to `top` holds after the calls `ops`, made
/// in order on a pool that held `start`.
pub open spec fn held_after(start: Set<int>, ops: Seq<PoolOp>, top: int) -> Set<int>
    decreases ops.len(),
{
    if ops.len() == 0 {
        start
    } else {
        let before = held_after(start, ops.drop_last(), top);
        match ops.last() {
            PoolOp::Alloc => held_after_issue(before, top),
            PoolOp::Dealloc(id) => before.remove(id),
        }
    }
}

/// After any sequence of allocations and releases, the next allocation hands
/// out the least positive id that is not held at that moment, so none that is
/// still held, and holds it from then on. It fails only when every positive id
/// up to `top` is held.
pub proof fn law_alloc_after_any_calls_is_smallest_free(start: Set<int>, ops: Seq<PoolOp>, top: int)
    ensures
        ({
            let before = held_after(start, ops, top);
            let id = issued(before, top);
            let after = held_after(start, ops.push(PoolOp::Alloc), top);
            &&& id == NO_ID <==> all_held_up_to(before, top)
            &&& id == NO_ID ==> after == before
            &&& id != NO_ID ==> {
                &&& 1 <= id <= top
                &&& !before.contains(id)
                &&& forall|j: int| 1 <= j < id ==> before.contains(j)
                &&& after == before.insert(id)
            }
        }),
{
    let before = held_after(start, ops, top);
    assert(ops.push(PoolOp::Alloc).drop_last() =~= ops);
    if !all_held_up_to(before, top) {
        lemma_smallest_free_exists(before, top);
    }
}

} // verus!
