//! Resolution of the locks left behind by transactions whose end is
//! known: the write half, which resolves the locks that the scan found, a
//! batch at a time.

use vstd::prelude::*;
use crate::command::Command;
use crate::effects::{
    all_of_mvcc,
    into_modifies,
    open_txn,
    release,
    set_start_ts,
    take_statistics,
    write_size,
    Effect,
    Effects,
};
use crate::errors::Error;
use crate::kv::{Context, Key, Modify};
use crate::lock_manager::{
    distinct_txns,
    group_index,
    group_push,
    group_views,
    lemma_group_index,
    lemma_group_push,
    ReleasedLocks,
    ReleasedLocksByTxn,
    ReleasedLocksView,
};
use crate::mvcc::Lock as MvccLock;
use crate::mvcc::{
    MAX_TXN_WRITE_SIZE,
    MvccError,
    MvccTxn,
    Release,
    ReleasedLock,
    Snapshot,
    Statistics,
};
use crate::scheduler::{ProcessResult, WriteResult};
use crate::write::{counted, in_txn, taken_if, writes_batch};

use std::collections::HashMap;

verus! {

/// How the lock of a transaction with a known end is resolved: rolled
/// back if the transaction has commit timestamp zero, committed if the
/// commit timestamp is after the start timestamp, and refused otherwise.
pub open spec fn spec_resolve_action(lock_ts: u64, commit_ts: u64) -> Result<Release, Error> {
    if commit_ts == 0 {
        Ok(Release::Rollback)
    } else if commit_ts > lock_ts {
        Ok(Release::Commit { commit_ts })
    } else {
        Err(Error::InvalidTxnTso { start_ts: lock_ts, commit_ts })
    }
}

#[verifier::when_used_as_spec(spec_resolve_action)]
pub fn resolve_action(lock_ts: u64, commit_ts: u64) -> (r: Result<Release, Error>)
    ensures
        r == spec_resolve_action(lock_ts, commit_ts),
{
    if commit_ts == 0 {
        Ok(Release::Rollback)
    } else if commit_ts > lock_ts {
        Ok(Release::Commit { commit_ts })
    } else {
        Err(Error::InvalidTxnTso { start_ts: lock_ts, commit_ts })
    }
}

/// How `keys` keys of one transaction are resolved at the request of a
/// client that knows how the transaction ended. The rule is that of
/// `resolve_action`, with the start timestamp of the transaction for that
/// of the lock: rolled back with commit timestamp zero, committed with a
/// commit timestamp after the start timestamp, and refused otherwise. With
/// no key there is nothing to refuse.
pub open spec fn spec_resolve_lite_action(start_ts: u64, commit_ts: u64, keys: nat) -> Result<Release, Error> {
    if commit_ts == 0 {
        Ok(Release::Rollback)
    } else if commit_ts > start_ts || keys == 0 {
        Ok(Release::Commit { commit_ts })
    } else {
        Err(Error::InvalidTxnTso { start_ts, commit_ts })
    }
}

pub fn resolve_lite_action(start_ts: u64, commit_ts: u64, keys: usize) -> (r: Result<Release, Error>)
    ensures
        r == spec_resolve_lite_action(start_ts, commit_ts, keys as nat),
        keys > 0 ==> r == spec_resolve_action(start_ts, commit_ts),
{
    if commit_ts == 0 {
        Ok(Release::Rollback)
    } else if commit_ts > start_ts || keys == 0 {
        Ok(Release::Commit { commit_ts })
    } else {
        Err(Error::InvalidTxnTso { start_ts, commit_ts })
    }
}

/// What the MVCC layer answered while one lock was resolved: what was set
/// free, and the size of the write batch afterwards.
pub ghost struct ResolveReply {
    pub released: Result<Option<ReleasedLock>, MvccError>,
    pub write_size: usize,
}

/// How far a batch of locks has been resolved.
pub ghost enum Resolving {
    /// Every lock so far was resolved, and the batch has room for more.
    Going { groups: Seq<ReleasedLocksView> },
    /// The lock at index `at` was resolved and filled the batch.
    Full { groups: Seq<ReleasedLocksView>, at: int },
    Failed { err: Error },
}

/// Resolves the lock at index `at`, held by the transaction started at
/// `lock_ts` whose commit timestamp is `commit_ts`.
pub open spec fn resolve_step(
    groups: Seq<ReleasedLocksView>,
    lock_ts: u64,
    commit_ts: u64,
    reply: ResolveReply,
    at: int,
) -> Resolving {
    match spec_resolve_action(lock_ts, commit_ts) {
        Err(err) => Resolving::Failed { err },
        Ok(_) => match reply.released {
            Err(e) => Resolving::Failed { err: Error::Mvcc(e) },
            Ok(lock) => {
                let groups = group_push(groups, lock_ts, commit_ts, lock);
                if reply.write_size >= MAX_TXN_WRITE_SIZE {
                    Resolving::Full { groups, at }
                } else {
                    Resolving::Going { groups }
                }
            },
        },
    }
}

/// Resolves the locks in order, one for each answer, up to the first that
/// fails or fills the batch.
pub open spec fn resolve_fold(
    key_locks: Seq<(Key, MvccLock)>,
    txn_status: Map<u64, u64>,
    replies: Seq<ResolveReply>,
) -> Resolving
    decreases replies.len(),
{
    if replies.len() == 0 {
        Resolving::Going { groups: Seq::empty() }
    } else {
        match resolve_fold(key_locks, txn_status, replies.drop_last()) {
            Resolving::Going { groups } => {
                let at = replies.len() - 1;
                let lock_ts = key_locks[at].1.ts;
                resolve_step(groups, lock_ts, txn_status[lock_ts], replies.last(), at)
            },
            stopped => stopped,
        }
    }
}

/// A run that resolves a batch of locks: it ends at the first lock that
/// fails or fills the write batch, and otherwise handles every lock. `r`
/// holds the aggregates of what was set free, one for each transaction,
/// and the key from which the next scan starts: the key that filled the
/// batch, or else the key that the command came with.
pub open spec fn resolve_run(
    key_locks: Seq<(Key, MvccLock)>,
    txn_status: Map<u64, u64>,
    scan_key: Option<Key>,
    replies: Seq<ResolveReply>,
    r: Result<(Vec<ReleasedLocks>, Option<Key>), Error>,
) -> bool {
    &&& replies.len() <= key_locks.len()
    &&& replies.len() > 0 ==> resolve_fold(key_locks, txn_status, replies.drop_last()) is Going
    &&& match resolve_fold(key_locks, txn_status, replies) {
        Resolving::Going { groups } => {
            &&& replies.len() == key_locks.len()
            &&& r is Ok
            &&& group_views(r->Ok_0.0@) == groups
            &&& r->Ok_0.1 == scan_key
        },
        Resolving::Full { groups, at } => {
            &&& r is Ok
            &&& group_views(r->Ok_0.0@) == groups
            &&& r->Ok_0.1 == Some(key_locks[at].0)
        },
        Resolving::Failed { err } => r is Err && r->Err_0 == err,
    }
}

/// Whether the end of the transaction that holds each lock is known.
pub open spec fn all_status_known(key_locks: Seq<(Key, MvccLock)>, txn_status: Map<u64, u64>) -> bool {
    forall|i: int| 0 <= i < key_locks.len() ==> txn_status.contains_key((#[trigger] key_locks[i]).1.ts)
}

/// What resolving one lock asks of the transaction: to take on the start
/// timestamp of the holder of the lock; then, unless the commit timestamp
/// is refused, to roll the key back or to commit it; then, if that
/// succeeded, the size of the write batch.
pub open spec fn resolve_key_effects(pair: (Key, MvccLock), commit_ts: u64, reply: ResolveReply) -> Seq<Effect> {
    seq![Effect::SetStartTs { start_ts: pair.1.ts }] + match spec_resolve_action(pair.1.ts, commit_ts) {
        Err(_) => Seq::empty(),
        Ok(how) => seq![Effect::Release { key: pair.0@, how, reply: reply.released }] + if reply.released is Ok {
            seq![Effect::WriteSize { reply: reply.write_size }]
        } else {
            Seq::empty()
        },
    }
}

/// What a run that resolves a batch of locks asks of the transaction, one
/// lock after the other.
pub open spec fn resolve_effects(
    key_locks: Seq<(Key, MvccLock)>,
    txn_status: Map<u64, u64>,
    replies: Seq<ResolveReply>,
) -> Seq<Effect>
    decreases replies.len(),
{
    if replies.len() == 0 {
        Seq::empty()
    } else {
        let at = replies.len() - 1;
        resolve_effects(key_locks, txn_status, replies.drop_last()) + resolve_key_effects(
            key_locks[at],
            txn_status[key_locks[at].1.ts],
            replies.last(),
        )
    }
}

/// Whether a run resolved a batch of locks: `r` is what `resolve_run`
/// gives for the answers of the transaction, and the effects added are
/// those of resolving the locks with those answers.
pub open spec fn resolved_all(
    key_locks: Seq<(Key, MvccLock)>,
    txn_status: Map<u64, u64>,
    scan_key: Option<Key>,
    before: Seq<Effect>,
    after: Seq<Effect>,
    r: Result<(Vec<ReleasedLocks>, Option<Key>), Error>,
) -> bool {
    exists|replies: Seq<ResolveReply>|
        resolve_run(key_locks, txn_status, scan_key, replies, r) && after == before + resolve_effects(
            key_locks,
            txn_status,
            replies,
        )
}

/// Resolves the locks of a batch in order, and stops after the lock with
/// which the write batch reaches its budget.
pub fn resolve_all<T: MvccTxn>(
    txn: &mut T,
    txn_status: &HashMap<u64, u64>,
    key_locks: Vec<(Key, MvccLock)>,
    scan_key: Option<Key>,
    effects: &mut Effects,
) -> (r: Result<(Vec<ReleasedLocks>, Option<Key>), Error>)
    requires
        all_status_known(key_locks@, txn_status@),
    ensures
        resolved_all(key_locks@, txn_status@, scan_key, old(effects)@, final(effects)@, r),
{
    broadcast use vstd::std_specs::hash::group_hash_axioms;

    // Maps the start timestamp of each transaction to what it set free.
    let mut groups = ReleasedLocksByTxn::new();
    let ghost mut seen: Seq<ResolveReply> = Seq::empty();
    let ghost pairs = key_locks@;
    let ghost status = txn_status@;
    let ghost before = effects@;
    assert(effects@ =~= before + resolve_effects(pairs, status, seen));
    for pair in it: key_locks.into_iter()
        invariant
            pairs == it.seq(),
            status == txn_status@,
            all_status_known(pairs, status),
            seen.len() == it.index(),
            groups.wf(),
            resolve_fold(pairs, status, seen) == (Resolving::Going { groups: groups@ }),
            before == old(effects)@,
            effects@ == before + resolve_effects(pairs, status, seen),
    {
        let ghost at = seen.len() as int;
        let ghost so_far = effects@;
        assert(pair == pairs[at]);
        let (current_key, current_lock) = pair;
        set_start_ts(txn, current_lock.ts, effects);
        let commit_ts = match txn_status.get(&current_lock.ts) {
            Some(commit_ts) => *commit_ts,
            None => {
                assert(status.contains_key(pairs[at].1.ts));
                unreached()
            },
        };
        let how = match resolve_action(current_lock.ts, commit_ts) {
            Ok(how) => how,
            Err(e) => {
                let r = Err(e);
                proof {
                    let reply = ResolveReply { released: Ok(None), write_size: 0 };
                    assert(seen.push(reply).drop_last() =~= seen);
                    assert(resolve_run(pairs, status, scan_key, seen.push(reply), r));
                    assert(effects@ =~= so_far + resolve_key_effects(pairs[at], commit_ts, reply));
                    assert(effects@ =~= before + resolve_effects(pairs, status, seen.push(reply)));
                }
                return r;
            },
        };
        let released = release(txn, current_key.clone(), how, effects);
        let released = match released {
            Ok(released) => released,
            Err(e) => {
                let r = Err(Error::Mvcc(e));
                proof {
                    let reply = ResolveReply { released: Err(e), write_size: 0 };
                    assert(seen.push(reply).drop_last() =~= seen);
                    assert(resolve_run(pairs, status, scan_key, seen.push(reply), r));
                    assert(effects@ =~= so_far + resolve_key_effects(pairs[at], commit_ts, reply));
                    assert(effects@ =~= before + resolve_effects(pairs, status, seen.push(reply)));
                }
                return r;
            },
        };
        groups.push(current_lock.ts, commit_ts, released);
        let size = write_size(txn, effects);
        proof {
            let reply = ResolveReply { released: Ok(released), write_size: size };
            assert(seen.push(reply).drop_last() =~= seen);
            assert(effects@ =~= so_far + resolve_key_effects(pairs[at], commit_ts, reply));
            assert(effects@ =~= before + resolve_effects(pairs, status, seen.push(reply)));
            seen = seen.push(reply);
        }
        if size >= MAX_TXN_WRITE_SIZE {
            let r = Ok((groups.into_vec(), Some(current_key)));
            assert(resolve_run(pairs, status, scan_key, seen, r));
            return r;
        }
    }
    let r = Ok((groups.into_vec(), scan_key));
    proof {
        lemma_resolve_fold(pairs, status, seen);
    }
    assert(resolve_run(pairs, status, scan_key, seen, r));
    r
}

/// While a batch is being resolved, every lock so far was resolved with
/// success and left the write batch under its budget, and there is one
/// aggregate for each transaction. Once the batch is full, all this holds
/// of the locks before the last.
pub proof fn lemma_resolve_fold(
    key_locks: Seq<(Key, MvccLock)>,
    txn_status: Map<u64, u64>,
    replies: Seq<ResolveReply>,
)
    ensures
        resolve_fold(key_locks, txn_status, replies) matches Resolving::Going { groups } ==> {
            &&& distinct_txns(groups)
            &&& forall|i: int|
                0 <= i < replies.len() ==> (#[trigger] replies[i]).released is Ok && replies[i].write_size
                    < MAX_TXN_WRITE_SIZE
            &&& (replies.len() > 0 ==> resolve_fold(key_locks, txn_status, replies.drop_last()) is Going)
        },
        resolve_fold(key_locks, txn_status, replies) matches Resolving::Full { groups, at } ==> {
            &&& distinct_txns(groups)
            &&& 0 <= at < replies.len()
            &&& replies[at].write_size >= MAX_TXN_WRITE_SIZE
            &&& forall|i: int|
                0 <= i < at ==> (#[trigger] replies[i]).released is Ok && replies[i].write_size < MAX_TXN_WRITE_SIZE
        },
    decreases replies.len(),
{
    if replies.len() > 0 {
        let front = replies.drop_last();
        lemma_resolve_fold(key_locks, txn_status, front);
        assert(forall|i: int| 0 <= i < front.len() ==> front[i] == replies[i]);
        match resolve_fold(key_locks, txn_status, front) {
            Resolving::Going { groups } => {
                let at = replies.len() - 1;
                let lock_ts = key_locks[at].1.ts;
                if spec_resolve_action(lock_ts, txn_status[lock_ts]) is Ok && replies.last().released is Ok {
                    lemma_group_push(groups, lock_ts, txn_status[lock_ts], replies.last().released->Ok_0);
                }
            },
            _ => {},
        }
    }
}

/// Whether `pr` asks the scheduler to go on resolving locks from
/// `scan_key` on, with no locks in hand.
pub open spec fn is_next_resolve(
    pr: ProcessResult,
    ctx: Context,
    txn_status: HashMap<u64, u64>,
    scan_key: Option<Key>,
) -> bool {
    match pr {
        ProcessResult::NextCommand { cmd: Command::ResolveLock { ctx: c, txn_status: t, scan_key: s, key_locks } } => {
            &&& c == ctx
            &&& t == txn_status
            &&& s == scan_key
            &&& key_locks@.len() == 0
        },
        _ => false,
    }
}

/// Whether `r` hands a batch of resolved locks to the engine and, if
/// there is a key to scan from, asks to go on from there.
pub open spec fn resolves_batch(
    r: Result<WriteResult, Error>,
    ctx: Context,
    n: nat,
    modifies: Vec<Modify>,
    txn_status: HashMap<u64, u64>,
    next: Option<Key>,
) -> bool {
    &&& r is Ok
    &&& writes_batch(r->Ok_0, ctx, n, modifies)
    &&& if next is None {
        r->Ok_0.pr == ProcessResult::Res
    } else {
        is_next_resolve(r->Ok_0.pr, ctx, txn_status, next)
    }
}

/// Outcome of resolving a batch of locks, given what the MVCC layer
/// answered. `woken` holds one aggregate for each transaction of which a
/// lock was resolved; a failed command wakes nobody.
pub open spec fn resolve_result(
    ctx: Context,
    key_locks: Seq<(Key, MvccLock)>,
    txn_status: HashMap<u64, u64>,
    scan_key: Option<Key>,
    begin: Result<(), MvccError>,
    replies: Seq<ResolveReply>,
    modifies: Vec<Modify>,
    r: Result<WriteResult, Error>,
    woken: Seq<ReleasedLocksView>,
) -> bool {
    match begin {
        Err(e) => r == Err::<WriteResult, Error>(Error::Mvcc(e)) && woken.len() == 0,
        Ok(_) => {
            &&& replies.len() <= key_locks.len()
            &&& replies.len() > 0 ==> resolve_fold(key_locks, txn_status@, replies.drop_last()) is Going
            &&& match resolve_fold(key_locks, txn_status@, replies) {
                Resolving::Failed { err } => r == Err::<WriteResult, Error>(err) && woken.len() == 0,
                Resolving::Going { groups } => {
                    &&& replies.len() == key_locks.len()
                    &&& resolves_batch(r, ctx, key_locks.len(), modifies, txn_status, scan_key)
                    &&& woken == groups
                },
                Resolving::Full { groups, at } => {
                    &&& resolves_batch(r, ctx, key_locks.len(), modifies, txn_status, Some(key_locks[at].0))
                    &&& woken == groups
                },
            }
        },
    }
}

/// Whether no lock of the batch failed, so that there is a batch to
/// persist.
pub open spec fn resolved_batch(
    key_locks: Seq<(Key, MvccLock)>,
    txn_status: Map<u64, u64>,
    replies: Seq<ResolveReply>,
) -> bool {
    !(resolve_fold(key_locks, txn_status, replies) is Failed)
}

/// What the write half of a lock resolution does and yields: the outcome
/// that `resolve_result` gives for the answers of the MVCC layer, which
/// are those on the record of effects. The transaction is opened at
/// timestamp zero and takes on the timestamp of each lock in turn. The
/// counters of the transaction are added to those of the caller.
pub open spec fn resolve_outcome(
    ctx: Context,
    key_locks: Seq<(Key, MvccLock)>,
    txn_status: HashMap<u64, u64>,
    scan_key: Option<Key>,
    counters: (Statistics, Statistics),
    effects: (Seq<Effect>, Seq<Effect>),
    r: Result<WriteResult, Error>,
    woken: Seq<ReleasedLocksView>,
) -> bool {
    exists|begin: Result<(), MvccError>, replies: Seq<ResolveReply>, stats: Statistics, modifies: Vec<Modify>|
        {
            &&& #[trigger] resolve_result(ctx, key_locks, txn_status, scan_key, begin, replies, modifies, r, woken)
            &&& effects.1 == effects.0 + #[trigger] in_txn(
                0,
                ctx.fill_cache(),
                begin,
                resolve_effects(key_locks, txn_status@, replies),
                stats,
                taken_if(resolved_batch(key_locks, txn_status@, replies), modifies),
            )
            &&& counters.1 == counted(counters.0, begin, stats)
        }
}

/// Resolves the locks that the command has in hand.
pub fn process_resolve_lock<S: Snapshot>(
    snapshot: S,
    ctx: Context,
    txn_status: HashMap<u64, u64>,
    scan_key: Option<Key>,
    key_locks: Vec<(Key, MvccLock)>,
    statistics: &mut Statistics,
    effects: &mut Effects,
) -> (r: (Result<WriteResult, Error>, Vec<ReleasedLocks>))
    requires
        all_status_known(key_locks@, txn_status@),
    ensures
        resolve_outcome(
            ctx,
            key_locks@,
            txn_status,
            scan_key,
            (*old(statistics), *final(statistics)),
            (old(effects)@, final(effects)@),
            r.0,
            group_views(r.1@),
        ),
        r.0 is Ok ==> r.0->Ok_0.lock_info is None,
{
    let ghost pairs = key_locks@;
    let ghost before = effects@;
    let rows = key_locks.len();
    let opened = open_txn(snapshot, 0, ctx.fill_cache(), effects);
    let mut txn = match opened {
        Ok(txn) => txn,
        Err(e) => {
            let r = Err(Error::Mvcc(e));
            let woken: Vec<ReleasedLocks> = Vec::new();
            proof {
                let none: Seq<ResolveReply> = Seq::empty();
                assert(resolve_result(
                    ctx,
                    pairs,
                    txn_status,
                    scan_key,
                    Err(e),
                    none,
                    arbitrary(),
                    r,
                    group_views(woken@),
                ));
                assert(effects@ =~= before + in_txn(
                    0,
                    ctx.fill_cache(),
                    Err(e),
                    resolve_effects(pairs, txn_status@, none),
                    arbitrary(),
                    taken_if(resolved_batch(pairs, txn_status@, none), arbitrary()),
                ));
            }
            return (r, woken);
        },
    };
    let ghost opened_at = effects@;
    let outcome = resolve_all(&mut txn, &txn_status, key_locks, scan_key, effects);
    let ghost replies = choose|replies: Seq<ResolveReply>|
        resolve_run(pairs, txn_status@, scan_key, replies, outcome) && effects@ == opened_at + resolve_effects(
            pairs,
            txn_status@,
            replies,
        );
    let stats = take_statistics(&mut txn, effects);
    statistics.add(&stats);
    match outcome {
        Err(e) => {
            let r = Err(e);
            let woken: Vec<ReleasedLocks> = Vec::new();
            proof {
                assert(resolve_result(
                    ctx,
                    pairs,
                    txn_status,
                    scan_key,
                    Ok(()),
                    replies,
                    arbitrary(),
                    r,
                    group_views(woken@),
                ));
                assert(effects@ =~= before + in_txn(
                    0,
                    ctx.fill_cache(),
                    Ok(()),
                    resolve_effects(pairs, txn_status@, replies),
                    stats,
                    taken_if(resolved_batch(pairs, txn_status@, replies), arbitrary()),
                ));
            }
            (r, woken)
        },
        Ok((woken, next)) => {
            let modifies = into_modifies(txn, effects);
            let pr = match next {
                None => ProcessResult::Res,
                Some(key) => ProcessResult::NextCommand {
                    cmd: Command::ResolveLock { ctx, txn_status, scan_key: Some(key), key_locks: Vec::new() },
                },
            };
            let r = Ok(WriteResult { ctx, to_be_write: modifies, rows, pr, lock_info: None });
            proof {
                assert(resolve_result(
                    ctx,
                    pairs,
                    txn_status,
                    scan_key,
                    Ok(()),
                    replies,
                    modifies,
                    r,
                    group_views(woken@),
                ));
                assert(effects@ =~= before + in_txn(
                    0,
                    ctx.fill_cache(),
                    Ok(()),
                    resolve_effects(pairs, txn_status@, replies),
                    stats,
                    taken_if(resolved_batch(pairs, txn_status@, replies), modifies),
                ));
            }
            (r, woken)
        },
    }
}

/// What the locks of the transaction started at `ts` set free while a
/// batch was resolved, in the order of the keys.
pub open spec fn txn_releases(key_locks: Seq<(Key, MvccLock)>, replies: Seq<ResolveReply>, ts: u64) -> Seq<
    Option<ReleasedLock>,
>
    decreases replies.len(),
{
    if replies.len() == 0 {
        Seq::empty()
    } else {
        let front = txn_releases(key_locks, replies.drop_last(), ts);
        let at = replies.len() - 1;
        if key_locks[at].1.ts == ts && replies[at].released is Ok {
            front.push(replies[at].released->Ok_0)
        } else {
            front
        }
    }
}

/// Whether the aggregates are those of the locks resolved so far: one for
/// each transaction of which a lock was handled, made from exactly what
/// the locks of that transaction set free.
pub open spec fn grouped(
    key_locks: Seq<(Key, MvccLock)>,
    txn_status: Map<u64, u64>,
    replies: Seq<ResolveReply>,
    groups: Seq<ReleasedLocksView>,
) -> bool {
    &&& distinct_txns(groups)
    &&& forall|k: int|
        0 <= k < groups.len() ==> (#[trigger] groups[k]) == ReleasedLocksView::empty(
            groups[k].start_ts,
            txn_status[groups[k].start_ts],
        ).push_all(txn_releases(key_locks, replies, groups[k].start_ts))
    &&& forall|k: int|
        0 <= k < groups.len() ==> exists|i: int|
            0 <= i < replies.len() && (#[trigger] key_locks[i]).1.ts == (#[trigger] groups[k]).start_ts
    &&& forall|i: int|
        0 <= i < replies.len() ==> group_index(groups, (#[trigger] key_locks[i]).1.ts, 0) < groups.len()
}

proof fn lemma_no_releases(key_locks: Seq<(Key, MvccLock)>, replies: Seq<ResolveReply>, ts: u64)
    requires
        forall|i: int| 0 <= i < replies.len() ==> (#[trigger] key_locks[i]).1.ts != ts,
    ensures
        txn_releases(key_locks, replies, ts) == Seq::<Option<ReleasedLock>>::empty(),
    decreases replies.len(),
{
    if replies.len() > 0 {
        lemma_no_releases(key_locks, replies.drop_last(), ts);
    }
}

proof fn lemma_grouped_step(
    key_locks: Seq<(Key, MvccLock)>,
    txn_status: Map<u64, u64>,
    replies: Seq<ResolveReply>,
    before: Seq<ReleasedLocksView>,
)
    requires
        replies.len() > 0,
        replies.last().released is Ok,
        grouped(key_locks, txn_status, replies.drop_last(), before),
    ensures
        grouped(
            key_locks,
            txn_status,
            replies,
            group_push(
                before,
                key_locks[replies.len() - 1].1.ts,
                txn_status[key_locks[replies.len() - 1].1.ts],
                replies.last().released->Ok_0,
            ),
        ),
{
    let front = replies.drop_last();
    let at = replies.len() - 1;
    let ts = key_locks[at].1.ts;
    let cts = txn_status[ts];
    let lock = replies.last().released->Ok_0;
    let after = group_push(before, ts, cts, lock);
    let i = group_index(before, ts, 0);
    lemma_group_push(before, ts, cts, lock);
    lemma_group_index(before, ts, 0);
    lemma_group_index(after, ts, 0);
    assert(replies[at] == replies.last());
    assert(after[i].start_ts == ts);
    assert forall|k: int| 0 <= k < after.len() implies (#[trigger] after[k]) == ReleasedLocksView::empty(
        after[k].start_ts,
        txn_status[after[k].start_ts],
    ).push_all(txn_releases(key_locks, replies, after[k].start_ts)) by {
        let start = ReleasedLocksView::empty(after[k].start_ts, txn_status[after[k].start_ts]);
        if k == i {
            let mine = txn_releases(key_locks, front, ts);
            assert(txn_releases(key_locks, replies, ts) == mine.push(lock));
            assert(mine.push(lock).drop_last() =~= mine);
            assert(mine.push(lock).last() == lock);
            assert(start.push_all(mine.push(lock)) == start.push_all(mine).push(lock));
            if i == before.len() {
                assert forall|j: int| 0 <= j < front.len() implies (#[trigger] key_locks[j]).1.ts != ts by {
                    lemma_group_index(before, key_locks[j].1.ts, 0);
                }
                lemma_no_releases(key_locks, front, ts);
                assert(start.push_all(mine) == start);
                assert(after[k] == start.push(lock));
            } else {
                assert(before[i].start_ts == ts);
                assert(before[i] == start.push_all(mine));
                assert(after[k] == before[i].push(lock));
            }
        } else {
            assert(after[k] == before[k]);
            assert(after[k].start_ts != ts);
            assert(txn_releases(key_locks, replies, after[k].start_ts) == txn_releases(
                key_locks,
                front,
                after[k].start_ts,
            ));
        }
    }
    assert forall|k: int| 0 <= k < after.len() implies exists|j: int|
        0 <= j < replies.len() && (#[trigger] key_locks[j]).1.ts == (#[trigger] after[k]).start_ts by {
        if k == i {
            assert(key_locks[at].1.ts == after[k].start_ts);
        } else {
            assert(after[k] == before[k]);
            let j = choose|j: int| 0 <= j < front.len() && (#[trigger] key_locks[j]).1.ts == before[k].start_ts;
            assert(key_locks[j].1.ts == after[k].start_ts);
        }
    }
    assert forall|j: int| 0 <= j < replies.len() implies group_index(after, (#[trigger] key_locks[j]).1.ts, 0)
        < after.len() by {
        let tj = key_locks[j].1.ts;
        lemma_group_index(after, tj, 0);
        if tj != ts {
            lemma_group_index(before, tj, 0);
            let b = group_index(before, tj, 0);
            assert(after[b] == before[b]);
        } else {
            assert(after[i].start_ts == tj);
        }
    }
}

/// Wake-up grouping, while a batch of locks is resolved: as long as no
/// lock failed or filled the write batch, the aggregates are those of the
/// locks resolved so far.
pub proof fn lemma_grouped(key_locks: Seq<(Key, MvccLock)>, txn_status: Map<u64, u64>, replies: Seq<ResolveReply>)
    requires
        resolve_fold(key_locks, txn_status, replies) is Going,
    ensures
        grouped(key_locks, txn_status, replies, resolve_fold(key_locks, txn_status, replies)->Going_groups),
    decreases replies.len(),
{
    if replies.len() > 0 {
        let front = replies.drop_last();
        lemma_grouped(key_locks, txn_status, front);
        lemma_grouped_step(key_locks, txn_status, replies, resolve_fold(key_locks, txn_status, front)->Going_groups);
    }
}

/// Wake-up grouping, for a command that resolves a batch of locks. If the
/// command succeeds, the waiters are woken with one aggregate for each
/// transaction of which a lock was resolved, and with no other. Each
/// aggregate names its transaction with the commit timestamp that the
/// command knows of it, and is made from exactly what the locks of that
/// transaction set free, in the order of the keys.
pub proof fn lemma_resolve_grouping(
    ctx: Context,
    key_locks: Seq<(Key, MvccLock)>,
    txn_status: HashMap<u64, u64>,
    scan_key: Option<Key>,
    replies: Seq<ResolveReply>,
    modifies: Vec<Modify>,
    r: Result<WriteResult, Error>,
    woken: Seq<ReleasedLocksView>,
)
    requires
        resolve_result(ctx, key_locks, txn_status, scan_key, Ok(()), replies, modifies, r, woken),
        r is Ok,
    ensures
        grouped(key_locks, txn_status@, replies, woken),
{
    if replies.len() > 0 {
        let front = replies.drop_last();
        lemma_grouped(key_locks, txn_status@, front);
        lemma_grouped_step(key_locks, txn_status@, replies, resolve_fold(key_locks, txn_status@, front)->Going_groups);
    }
}

/// Batching of lock resolution. Before the last lock of a round was
/// resolved, the write batch was under its byte budget: a batch goes over
/// the budget by no more than what one key adds to it.
pub proof fn lemma_resolve_batching(
    ctx: Context,
    key_locks: Seq<(Key, MvccLock)>,
    txn_status: HashMap<u64, u64>,
    scan_key: Option<Key>,
    replies: Seq<ResolveReply>,
    modifies: Vec<Modify>,
    r: Result<WriteResult, Error>,
    woken: Seq<ReleasedLocksView>,
)
    requires
        resolve_result(ctx, key_locks, txn_status, scan_key, Ok(()), replies, modifies, r, woken),
    ensures
        forall|i: int| 0 <= i < replies.len() - 1 ==> (#[trigger] replies[i]).write_size < MAX_TXN_WRITE_SIZE,
{
    if replies.len() > 0 {
        let front = replies.drop_last();
        lemma_resolve_fold(key_locks, txn_status@, front);
        assert forall|i: int| 0 <= i < replies.len() - 1 implies (#[trigger] replies[i]).write_size
            < MAX_TXN_WRITE_SIZE by {
            assert(front[i] == replies[i]);
        }
    }
}

/// Progress of lock resolution. A round that has locks in hand and
/// succeeds has resolved at least one of them, and every lock it handled.
/// A round that ends the resolution has resolved every lock it had in
/// hand, and came without a key to scan on from.
pub proof fn lemma_resolve_progress(
    ctx: Context,
    key_locks: Seq<(Key, MvccLock)>,
    txn_status: HashMap<u64, u64>,
    scan_key: Option<Key>,
    replies: Seq<ResolveReply>,
    modifies: Vec<Modify>,
    r: Result<WriteResult, Error>,
    woken: Seq<ReleasedLocksView>,
)
    requires
        resolve_result(ctx, key_locks, txn_status, scan_key, Ok(()), replies, modifies, r, woken),
        r is Ok,
    ensures
        key_locks.len() > 0 ==> replies.len() >= 1,
        forall|i: int| 0 <= i < replies.len() ==> (#[trigger] replies[i]).released is Ok,
        r->Ok_0.pr == ProcessResult::Res ==> replies.len() == key_locks.len() && scan_key is None,
        r->Ok_0.pr != ProcessResult::Res ==> r->Ok_0.pr is NextCommand,
{
    lemma_resolve_fold(key_locks, txn_status@, replies);
    if replies.len() > 0 {
        let front = replies.drop_last();
        lemma_resolve_fold(key_locks, txn_status@, front);
        assert forall|i: int| 0 <= i < replies.len() implies (#[trigger] replies[i]).released is Ok by {
            if i < front.len() {
                assert(front[i] == replies[i]);
            } else {
                assert(replies[i] == replies.last());
            }
        }
    }
}

/// The locks left to resolve after `rounds` rounds, of which round `i`
/// resolved `resolved(i)`.
pub open spec fn locks_left(total: nat, resolved: spec_fn(nat) -> nat, rounds: nat) -> int
    decreases rounds,
{
    if rounds == 0 {
        total as int
    } else {
        locks_left(total, resolved, (rounds - 1) as nat) - resolved((rounds - 1) as nat)
    }
}

/// Termination of lock resolution. If every round that finds locks left
/// resolves `batch` of them, or all that are left, then no lock is left
/// once the rounds times `batch` cover the locks there were: the number
/// of locks divided by `batch`, rounded up, is enough rounds.
///
/// With a `batch` of one the premise holds of every round that succeeds,
/// by `lemma_resolve_progress`. With a `batch` of the scan limit it holds
/// as long as every scan is full and no round is cut short by the byte
/// budget of its write batch.
pub proof fn lemma_resolve_rounds(total: nat, batch: nat, resolved: spec_fn(nat) -> nat, rounds: nat)
    requires
        batch >= 1,
        forall|i: nat|
            locks_left(total, resolved, i) > 0 ==> #[trigger] resolved(i) >= batch || resolved(i) >= locks_left(
                total,
                resolved,
                i,
            ),
    ensures
        locks_left(total, resolved, rounds) <= 0 || locks_left(total, resolved, rounds) <= total - rounds * batch,
        rounds * batch >= total ==> locks_left(total, resolved, rounds) <= 0,
    decreases rounds,
{
    if rounds == 0 {
        assert(rounds * batch == 0) by (nonlinear_arith)
            requires
                rounds == 0,
        ;
    } else {
        let before = (rounds - 1) as nat;
        lemma_resolve_rounds(total, batch, resolved, before);
        assert(rounds * batch == before * batch + batch) by (nonlinear_arith)
            requires
                rounds == before + 1,
        ;
        let left = locks_left(total, resolved, before);
        assert(locks_left(total, resolved, rounds) == left - resolved(before));
        if left > 0 {
            assert(resolved(before) >= batch || resolved(before) >= left);
        }
    }
}

/// Resolving locks asks of the MVCC layer only.
pub proof fn lemma_resolve_of_mvcc(
    key_locks: Seq<(Key, MvccLock)>,
    txn_status: Map<u64, u64>,
    replies: Seq<ResolveReply>,
)
    ensures
        all_of_mvcc(resolve_effects(key_locks, txn_status, replies)),
    decreases replies.len(),
{
    if replies.len() > 0 {
        lemma_resolve_of_mvcc(key_locks, txn_status, replies.drop_last());
    }
}

} // verus!
