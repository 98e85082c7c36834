//! What the executor tells the manager of waiting transactions, and the
//! aggregation of the locks that a command sets free.

use vstd::prelude::*;
use crate::effects::{wake_up, Effect, Effects};
use crate::errors::{
    is_locked_entry,
    locked_entry_key,
    locked_entry_ts,
    Error,
    StorageError,
    StorageResult,
};
use crate::mvcc::{MvccError, ReleasedLock};
use std::collections::HashMap;

verus! {

/// The lock that a pessimistic transaction has to wait for.
#[derive(Clone, Debug, PartialEq, Eq)]
pub struct Lock {
    /// Start timestamp of the transaction that holds the lock.
    pub ts: u64,
    pub key: Vec<u8>,
}

/// The manager of the transactions that wait for pessimistic locks.
pub trait LockMgr: Clone + Send + 'static {
    /// Tells the manager that the transaction started at `lock_ts` has set
    /// free the locks on the keys with these hashes.
    fn wake_up(&self, lock_ts: u64, hashes: Vec<u64>, commit_ts: u64, is_pessimistic_txn: bool);
}

/// The lock named by a per-key entry that reports a lock conflict.
pub fn extract_lock_from_result(res: &StorageResult<()>) -> (lock: Lock)
    requires
        is_locked_entry(*res),
    ensures
        lock.ts == locked_entry_ts(*res),
        lock.key@ == locked_entry_key(*res),
{
    match res {
        Err(StorageError::Txn(Error::Mvcc(MvccError::KeyIsLocked { key, ts, .. }))) => Lock {
            ts: *ts,
            key: key.clone(),
        },
        _ => unreached(),
    }
}

/// Model of a `ReleasedLocks`: the transaction, and the locks of it that
/// were set free so far.
pub ghost struct ReleasedLocksView {
    pub start_ts: u64,
    pub commit_ts: u64,
    pub hashes: Seq<u64>,
    pub pessimistic: bool,
}

impl ReleasedLocksView {
    pub open spec fn empty(start_ts: u64, commit_ts: u64) -> ReleasedLocksView {
        ReleasedLocksView { start_ts, commit_ts, hashes: Seq::empty(), pessimistic: false }
    }

    /// The aggregate after one more key was handled, which set free `lock`
    /// or nothing.
    pub open spec fn push(self, lock: Option<ReleasedLock>) -> ReleasedLocksView {
        match lock {
            Some(l) => ReleasedLocksView {
                hashes: self.hashes.push(l.hash),
                pessimistic: self.pessimistic || l.pessimistic,
                ..self
            },
            None => self,
        }
    }

    /// The aggregate after the keys were handled in order.
    pub open spec fn push_all(self, locks: Seq<Option<ReleasedLock>>) -> ReleasedLocksView
        decreases locks.len(),
    {
        if locks.len() == 0 {
            self
        } else {
            self.push_all(locks.drop_last()).push(locks.last())
        }
    }
}

/// The hashes of the locks that were set free, in order.
pub open spec fn released_hashes(locks: Seq<Option<ReleasedLock>>) -> Seq<u64>
    decreases locks.len(),
{
    if locks.len() == 0 {
        Seq::empty()
    } else {
        match locks.last() {
            Some(l) => released_hashes(locks.drop_last()).push(l.hash),
            None => released_hashes(locks.drop_last()),
        }
    }
}

/// Whether handling a key set free a pessimistic lock.
pub open spec fn frees_pessimistic(lock: Option<ReleasedLock>) -> bool {
    match lock {
        Some(l) => l.pessimistic,
        None => false,
    }
}

/// Whether handling a key set free a lock with hash `h`.
pub open spec fn frees_hash(lock: Option<ReleasedLock>, h: u64) -> bool {
    match lock {
        Some(l) => l.hash == h,
        None => false,
    }
}

/// Whether one of the locks that were set free was pessimistic.
pub open spec fn any_pessimistic(locks: Seq<Option<ReleasedLock>>) -> bool {
    exists|i: int| 0 <= i < locks.len() && frees_pessimistic(#[trigger] locks[i])
}

/// The locks that one command set free on behalf of one transaction.
pub struct ReleasedLocks {
    start_ts: u64,
    commit_ts: u64,
    hashes: Vec<u64>,
    pessimistic: bool,
}

impl View for ReleasedLocks {
    type V = ReleasedLocksView;

    closed spec fn view(&self) -> ReleasedLocksView {
        ReleasedLocksView {
            start_ts: self.start_ts,
            commit_ts: self.commit_ts,
            hashes: self.hashes@,
            pessimistic: self.pessimistic,
        }
    }
}

impl ReleasedLocks {
    pub fn new(start_ts: u64, commit_ts: u64) -> (r: ReleasedLocks)
        ensures
            r@ == ReleasedLocksView::empty(start_ts, commit_ts),
    {
        ReleasedLocks { start_ts, commit_ts, hashes: Vec::new(), pessimistic: false }
    }

    pub fn push(&mut self, lock: Option<ReleasedLock>)
        ensures
            final(self)@ == old(self)@.push(lock),
    {
        if let Some(lock) = lock {
            self.hashes.push(lock.hash);
            if !self.pessimistic {
                self.pessimistic = lock.pessimistic;
            }
        }
    }

    pub fn start_ts(&self) -> (r: u64)
        ensures
            r == self@.start_ts,
    {
        self.start_ts
    }

    pub fn commit_ts(&self) -> (r: u64)
        ensures
            r == self@.commit_ts,
    {
        self.commit_ts
    }

    pub fn hashes(&self) -> (r: &Vec<u64>)
        ensures
            r@ == self@.hashes,
    {
        &self.hashes
    }

    pub fn pessimistic(&self) -> (r: bool)
        ensures
            r == self@.pessimistic,
    {
        self.pessimistic
    }

    /// Wakes the transactions that wait for these locks, with one call to
    /// the lock manager if there is one.
    pub fn wake_up<L: LockMgr>(self, lock_mgr: Option<&L>, effects: &mut Effects)
        ensures
            final(effects)@ == old(effects)@ + wake_ups(seq![self@], lock_mgr is Some),
    {
        if let Some(lm) = lock_mgr {
            wake_up(lm, self.start_ts, self.hashes, self.commit_ts, self.pessimistic, effects);
            assert(effects@ =~= old(effects)@ + wake_ups(seq![self@], true));
        } else {
            assert(effects@ =~= old(effects)@ + wake_ups(seq![self@], false));
        }
    }
}

/// The wake-ups by which the lock manager, if there is one, is told of
/// the locks set free: one for each aggregate, in order.
pub open spec fn wake_ups(woken: Seq<ReleasedLocksView>, has_lock_mgr: bool) -> Seq<Effect> {
    if has_lock_mgr {
        Seq::new(
            woken.len(),
            |i: int|
                Effect::WakeUp {
                    lock_ts: woken[i].start_ts,
                    hashes: woken[i].hashes,
                    commit_ts: woken[i].commit_ts,
                    pessimistic: woken[i].pessimistic,
                },
        )
    } else {
        Seq::empty()
    }
}

/// After any sequence of keys the aggregate still speaks of the same
/// transaction, holds the hashes of exactly the locks that were set free,
/// in order, and is pessimistic if and only if one of them was.
pub proof fn lemma_push_all(start: ReleasedLocksView, locks: Seq<Option<ReleasedLock>>)
    ensures
        start.push_all(locks).start_ts == start.start_ts,
        start.push_all(locks).commit_ts == start.commit_ts,
        start.push_all(locks).hashes == start.hashes + released_hashes(locks),
        start.push_all(locks).pessimistic == (start.pessimistic || any_pessimistic(locks)),
    decreases locks.len(),
{
    if locks.len() == 0 {
        assert(start.hashes + released_hashes(locks) =~= start.hashes);
    } else {
        let front = locks.drop_last();
        lemma_push_all(start, front);
        let mid = start.push_all(front);
        assert(mid.hashes == start.hashes + released_hashes(front));
        match locks.last() {
            Some(l) => {
                assert(start.hashes + released_hashes(front).push(l.hash) =~= (start.hashes
                    + released_hashes(front)).push(l.hash));
            },
            None => {},
        }
        if any_pessimistic(front) {
            let i = choose|i: int| 0 <= i < front.len() && frees_pessimistic(#[trigger] front[i]);
            assert(locks[i] == front[i]);
        }
        if frees_pessimistic(locks.last()) {
            assert(locks[locks.len() - 1] == locks.last());
        }
        if any_pessimistic(locks) {
            let i = choose|i: int| 0 <= i < locks.len() && frees_pessimistic(#[trigger] locks[i]);
            if i < front.len() {
                assert(front[i] == locks[i]);
            }
        }
    }
}

/// A hash is among the released hashes if and only if some key set free a
/// lock with that hash, and there is one hash for each lock set free.
pub proof fn lemma_released_hashes(locks: Seq<Option<ReleasedLock>>)
    ensures
        released_hashes(locks).len() == locks.filter(|l: Option<ReleasedLock>| l is Some).len(),
        forall|h: u64|
            released_hashes(locks).contains(h) <==> exists|i: int|
                0 <= i < locks.len() && frees_hash(#[trigger] locks[i], h),
    decreases locks.len(),
{
    let p = |l: Option<ReleasedLock>| l is Some;
    if locks.len() == 0 {
        assert(locks.filter(p) =~= Seq::empty()) by {
            reveal(Seq::filter);
        }
    } else {
        let front = locks.drop_last();
        lemma_released_hashes(front);
        assert(locks.filter(p).len() == front.filter(p).len() + if p(locks.last()) {
            1int
        } else {
            0int
        }) by {
            reveal(Seq::filter);
        }
        assert forall|h: u64|
            released_hashes(locks).contains(h) <==> exists|i: int|
                0 <= i < locks.len() && frees_hash(#[trigger] locks[i], h) by {
            let rf = released_hashes(front);
            if released_hashes(locks).contains(h) {
                let j = choose|j: int| 0 <= j < released_hashes(locks).len() && released_hashes(locks)[j] == h;
                if j < rf.len() && (locks.last() is None || released_hashes(locks)[j] == rf[j]) {
                    assert(rf.contains(h)) by {
                        if locks.last() is None {
                            assert(released_hashes(locks) == rf);
                        }
                        assert(rf[j] == h);
                    }
                    let i = choose|i: int| 0 <= i < front.len() && frees_hash(#[trigger] front[i], h);
                    assert(locks[i] == front[i]);
                } else {
                    assert(locks[locks.len() - 1] == locks.last());
                }
            }
            if exists|i: int| 0 <= i < locks.len() && frees_hash(#[trigger] locks[i], h) {
                let i = choose|i: int| 0 <= i < locks.len() && frees_hash(#[trigger] locks[i], h);
                if i < front.len() {
                    assert(front[i] == locks[i]);
                    assert(rf.contains(h));
                    let j = choose|j: int| 0 <= j < rf.len() && rf[j] == h;
                    assert(released_hashes(locks)[j] == h);
                } else {
                    let l = locks.last()->Some_0;
                    assert(released_hashes(locks) == rf.push(l.hash));
                    assert(released_hashes(locks)[rf.len() as int] == h);
                }
            }
        }
    }
}

/// The models of a row of aggregates.
pub open spec fn group_views(groups: Seq<ReleasedLocks>) -> Seq<ReleasedLocksView> {
    groups.map_values(|g: ReleasedLocks| g@)
}

/// Index of the first aggregate from `from` on that belongs to the
/// transaction started at `start_ts`, or the length of the row if there is
/// none.
pub open spec fn group_index(groups: Seq<ReleasedLocksView>, start_ts: u64, from: int) -> int
    decreases groups.len() - from,
{
    if from < 0 || from >= groups.len() {
        groups.len() as int
    } else if groups[from].start_ts == start_ts {
        from
    } else {
        group_index(groups, start_ts, from + 1)
    }
}

/// The row after one more key of the transaction started at `start_ts`
/// was handled: the aggregate of that transaction takes it up, and a new
/// aggregate is appended where the transaction had none.
pub open spec fn group_push(
    groups: Seq<ReleasedLocksView>,
    start_ts: u64,
    commit_ts: u64,
    lock: Option<ReleasedLock>,
) -> Seq<ReleasedLocksView> {
    let i = group_index(groups, start_ts, 0);
    if i < groups.len() {
        groups.update(i, groups[i].push(lock))
    } else {
        groups.push(ReleasedLocksView::empty(start_ts, commit_ts).push(lock))
    }
}

/// No two aggregates of the row belong to the same transaction.
pub open spec fn distinct_txns(groups: Seq<ReleasedLocksView>) -> bool {
    forall|i: int, j: int|
        0 <= i < j < groups.len() ==> (#[trigger] groups[i]).start_ts != (#[trigger] groups[j]).start_ts
}

/// The index that `group_index` finds is the first one of the
/// transaction.
pub proof fn lemma_group_index(groups: Seq<ReleasedLocksView>, start_ts: u64, from: int)
    requires
        0 <= from <= groups.len(),
    ensures
        from <= group_index(groups, start_ts, from) <= groups.len(),
        group_index(groups, start_ts, from) < groups.len() ==> groups[group_index(groups, start_ts, from)].start_ts
            == start_ts,
        forall|k: int| from <= k < group_index(groups, start_ts, from) ==> (#[trigger] groups[k]).start_ts != start_ts,
    decreases groups.len() - from,
{
    if from < groups.len() && groups[from].start_ts != start_ts {
        lemma_group_index(groups, start_ts, from + 1);
    }
}

/// Wake-up grouping. Taking up one more key keeps one aggregate for each
/// transaction, leaves the aggregates of all other transactions as they
/// were, and leaves the transaction of the key with exactly one aggregate,
/// which has taken up the key.
pub proof fn lemma_group_push(
    groups: Seq<ReleasedLocksView>,
    start_ts: u64,
    commit_ts: u64,
    lock: Option<ReleasedLock>,
)
    requires
        distinct_txns(groups),
    ensures
        distinct_txns(group_push(groups, start_ts, commit_ts, lock)),
        groups.len() <= group_push(groups, start_ts, commit_ts, lock).len() <= groups.len() + 1,
        forall|k: int|
            0 <= k < groups.len() && (#[trigger] groups[k]).start_ts != start_ts ==> group_push(
                groups,
                start_ts,
                commit_ts,
                lock,
            )[k] == groups[k],
        ({
            let after = group_push(groups, start_ts, commit_ts, lock);
            let i = group_index(after, start_ts, 0);
            &&& i < after.len()
            &&& i == group_index(groups, start_ts, 0)
            &&& after[i] == if i < groups.len() {
                groups[i].push(lock)
            } else {
                ReleasedLocksView::empty(start_ts, commit_ts).push(lock)
            }
        }),
{
    let i = group_index(groups, start_ts, 0);
    lemma_group_index(groups, start_ts, 0);
    let after = group_push(groups, start_ts, commit_ts, lock);
    lemma_group_index(after, start_ts, 0);
    assert(after[i].start_ts == start_ts);
    assert forall|a: int, b: int| 0 <= a < b < after.len() implies (#[trigger] after[a]).start_ts != (
    #[trigger] after[b]).start_ts by {
        if a < groups.len() && a != i {
            assert(after[a] == groups[a]);
        }
        if b < groups.len() && b != i {
            assert(after[b] == groups[b]);
        }
        if i < groups.len() {
            assert(groups[a].start_ts != groups[b].start_ts);
        } else if b < groups.len() {
            assert(groups[a].start_ts != groups[b].start_ts);
        }
    }
    let j = group_index(after, start_ts, 0);
    if j < i {
        assert(after[j] == groups[j]);
    }
}

/// The locks that one command set free, kept by transaction: a map from
/// the start timestamp of each transaction to its aggregate, and the
/// start timestamps in the order in which the command first came to them,
/// which is the order in which the waiters are woken.
pub struct ReleasedLocksByTxn {
    by_txn: HashMap<u64, ReleasedLocks>,
    order: Vec<u64>,
}

impl ReleasedLocksByTxn {
    /// Every transaction of the row has its aggregate in the map, under
    /// its own start timestamp; no transaction stands twice in the row; and
    /// the map holds no other.
    pub closed spec fn wf(&self) -> bool {
        &&& forall|i: int|
            0 <= i < self.order@.len() ==> self.by_txn@.contains_key(#[trigger] self.order@[i])
                && self.by_txn@[self.order@[i]]@.start_ts == self.order@[i]
        &&& forall|i: int, j: int|
            0 <= i < j < self.order@.len() ==> (#[trigger] self.order@[i]) != (#[trigger] self.order@[j])
        &&& forall|k: u64| self.by_txn@.contains_key(k) ==> self.order@.contains(k)
    }

    /// The aggregates, in the order in which the command first came to
    /// their transactions.
    pub closed spec fn view(&self) -> Seq<ReleasedLocksView> {
        Seq::new(self.order@.len(), |i: int| self.by_txn@[self.order@[i]]@)
    }

    pub fn new() -> (r: ReleasedLocksByTxn)
        ensures
            r.wf(),
            r@ == Seq::<ReleasedLocksView>::empty(),
    {
        let r = ReleasedLocksByTxn { by_txn: HashMap::new(), order: Vec::new() };
        assert(r@ =~= Seq::empty());
        r
    }

    /// Files, under the transaction started at `start_ts`, the lock that
    /// handling one of its keys set free.
    pub fn push(&mut self, start_ts: u64, commit_ts: u64, lock: Option<ReleasedLock>)
        requires
            old(self).wf(),
        ensures
            final(self).wf(),
            final(self)@ == group_push(old(self)@, start_ts, commit_ts, lock),
    {
        broadcast use vstd::std_specs::hash::group_hash_axioms;

        let ghost before = self@;
        let ghost order = self.order@;
        let ghost map = self.by_txn@;
        proof {
            lemma_group_index(before, start_ts, 0);
        }
        let found = self.by_txn.remove(&start_ts);
        match found {
            Some(group) => {
                let ghost taken = group;
                let mut group = group;
                group.push(lock);
                self.by_txn.insert(start_ts, group);
                proof {
                    assert(map.contains_key(start_ts) && map[start_ts] == taken);
                    assert(order.contains(start_ts));
                    let at = choose|at: int| 0 <= at < order.len() && order[at] == start_ts;
                    let found_at = group_index(before, start_ts, 0);
                    assert(before[at].start_ts == start_ts);
                    assert(forall|i: int| 0 <= i < order.len() ==> before[i].start_ts == #[trigger] order[i]);
                    assert(found_at == at);
                    assert forall|k: u64| self.by_txn@.contains_key(k) implies self.order@.contains(k) by {
                        if k != start_ts {
                            assert(map.contains_key(k));
                        }
                    }
                    assert(self@ =~= group_push(before, start_ts, commit_ts, lock));
                }
            },
            None => {
                let mut group = ReleasedLocks::new(start_ts, commit_ts);
                group.push(lock);
                self.by_txn.insert(start_ts, group);
                self.order.push(start_ts);
                proof {
                    assert(!map.contains_key(start_ts));
                    assert(forall|i: int| 0 <= i < order.len() ==> before[i].start_ts == #[trigger] order[i]);
                    assert(group_index(before, start_ts, 0) == before.len());
                    assert forall|k: u64| self.by_txn@.contains_key(k) implies self.order@.contains(k) by {
                        if k == start_ts {
                            assert(self.order@[order.len() as int] == k);
                        } else {
                            assert(map.contains_key(k));
                            assert(order.contains(k));
                            let i = choose|i: int| 0 <= i < order.len() && order[i] == k;
                            assert(self.order@[i] == k);
                        }
                    }
                    assert(self@ =~= group_push(before, start_ts, commit_ts, lock));
                }
            },
        }
    }

    /// Hands out the aggregates, in the order in which the command first
    /// came to their transactions.
    pub fn into_vec(self) -> (groups: Vec<ReleasedLocks>)
        requires
            self.wf(),
        ensures
            group_views(groups@) == self@,
    {
        broadcast use vstd::std_specs::hash::group_hash_axioms;

        let ghost all = self@;
        let ReleasedLocksByTxn { by_txn, order } = self;
        let mut by_txn = by_txn;
        let ghost map = by_txn@;
        assert(forall|j: int| 0 <= j < order@.len() ==> map.contains_key(#[trigger] order@[j]));
        let mut groups: Vec<ReleasedLocks> = Vec::new();
        let mut i: usize = 0;
        assert(group_views(groups@) =~= all.take(0));
        while i < order.len()
            invariant
                i <= order.len(),
                all.len() == order@.len(),
                forall|j: int|
                    0 <= j < order@.len() ==> map.contains_key(#[trigger] order@[j]) && all[j] == map[order@[j]]@,
                forall|j: int, k: int| 0 <= j < k < order@.len() ==> (#[trigger] order@[j]) != (#[trigger] order@[k]),
                forall|j: int|
                    i <= j < order@.len() ==> by_txn@.contains_key(#[trigger] order@[j]) && by_txn@[order@[j]]
                        == map[order@[j]],
                group_views(groups@) == all.take(i as int),
            decreases order.len() - i,
        {
            let ghost held = by_txn@;
            let ghost handed = groups@;
            let found = by_txn.remove(&order[i]);
            assert(held.contains_key(order@[i as int]));
            match found {
                Some(group) => {
                    assert(group == map[order@[i as int]]);
                    groups.push(group);
                },
                None => {
                    unreached()
                },
            }
            assert forall|j: int| i + 1 <= j < order@.len() implies by_txn@.contains_key(#[trigger] order@[j])
                && by_txn@[order@[j]] == map[order@[j]] by {
                assert(order@[i as int] != order@[j]);
            }
            assert(groups@ == handed.push(map[order@[i as int]]));
            assert(all.take(i + 1) =~= all.take(i as int).push(all[i as int]));
            assert(group_views(groups@) =~= group_views(handed).push(map[order@[i as int]]@));
            i += 1;
        }
        assert(all.take(all.len() as int) =~= all);
        groups
    }
}

/// Wakes the waiters of every transaction of the row, with one call to the
/// lock manager for each, if there is a lock manager.
pub fn wake_up_all<L: LockMgr>(groups: Vec<ReleasedLocks>, lock_mgr: Option<&L>, effects: &mut Effects)
    ensures
        final(effects)@ == old(effects)@ + wake_ups(group_views(groups@), lock_mgr is Some),
{
    let ghost before = effects@;
    let ghost all = group_views(groups@);
    let ghost rows = groups@;
    assert(effects@ =~= before + wake_ups(all.take(0), lock_mgr is Some));
    for group in it: groups.into_iter()
        invariant
            rows == it.seq(),
            all == group_views(rows),
            before == old(effects)@,
            effects@ == before + wake_ups(all.take(it.index() as int), lock_mgr is Some),
    {
        let ghost at = it.index() as int;
        let ghost so_far = effects@;
        assert(group == rows[at]);
        group.wake_up(lock_mgr, effects);
        assert(effects@ =~= before + wake_ups(all.take(at + 1), lock_mgr is Some));
    }
    assert(all.take(all.len() as int) =~= all);
}

} // verus!
