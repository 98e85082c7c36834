//! Acquisition of pessimistic locks.

use vstd::prelude::*;
use crate::effects::{
    acquire_pessimistic_lock,
    into_modifies,
    open_txn,
    take_statistics,
    Effect,
    Effects,
};
use crate::errors::{locked_entry, locked_entry_key, locked_entry_ts, Error, StorageResult};
use crate::kv::{Context, Key, Modify};
use crate::lock_manager::extract_lock_from_result;
use crate::mvcc::{MvccError, MvccTxn, Options, Snapshot, Statistics};
use crate::scheduler::{ProcessResult, WriteResult};
use crate::write::{counted, in_txn, is_multi_res, taken_if, writes_batch, writes_nothing};
use crate::write::conflicts::{
    collect_lock,
    collect_locks,
    is_conflict,
    is_fatal,
    lemma_collect_locks,
};
use crate::write::prewrite::all_prewritten;

verus! {

/// A run of a pessimistic lock acquisition over `n` keys: the run ends at
/// the first answer that is not a success, and `r` holds the conflict met,
/// if any, or the error.
pub open spec fn acquire_run(
    n: nat,
    replies: Seq<Result<(), MvccError>>,
    r: Result<Vec<StorageResult<()>>, Error>,
) -> bool {
    &&& replies.len() <= n
    &&& forall|i: int| 0 <= i < replies.len() - 1 ==> (#[trigger] replies[i]) is Ok
    &&& match collect_locks(replies) {
        Ok(locks) => r is Ok && r->Ok_0@ == locks && (locks.len() == 0 ==> replies.len() == n),
        Err(e) => r == Err::<Vec<StorageResult<()>>, Error>(e),
    }
}

/// What a lock acquisition asks of the transaction: one acquisition for
/// each key that it comes to, in order.
pub open spec fn acquire_effects(
    keys: Seq<(Key, bool)>,
    primary: Seq<u8>,
    options: Options,
    replies: Seq<Result<(), MvccError>>,
) -> Seq<Effect> {
    Seq::new(
        replies.len(),
        |i: int|
            Effect::AcquirePessimisticLock {
                key: keys[i].0@,
                primary,
                should_not_exist: keys[i].1,
                options,
                reply: replies[i],
            },
    )
}

/// Whether a run acquired locks on `keys`: `r` is what `acquire_run`
/// gives for the answers of the transaction, and the effects added are
/// the acquisitions with those answers.
pub open spec fn acquired(
    keys: Seq<(Key, bool)>,
    primary: Seq<u8>,
    options: Options,
    before: Seq<Effect>,
    after: Seq<Effect>,
    r: Result<Vec<StorageResult<()>>, Error>,
) -> bool {
    exists|replies: Seq<Result<(), MvccError>>|
        acquire_run(keys.len(), replies, r) && after == before + acquire_effects(keys, primary, options, replies)
}

/// Acquires a pessimistic lock on every key in order, and stops at the
/// first lock conflict.
pub fn acquire_all<T: MvccTxn>(
    txn: &mut T,
    keys: Vec<(Key, bool)>,
    primary: &Vec<u8>,
    options: &Options,
    effects: &mut Effects,
) -> (r: Result<Vec<StorageResult<()>>, Error>)
    ensures
        acquired(keys@, primary@, *options, old(effects)@, final(effects)@, r),
{
    let mut locks: Vec<StorageResult<()>> = Vec::new();
    let ghost mut seen: Seq<Result<(), MvccError>> = Seq::empty();
    let ghost all = keys@;
    let ghost before = effects@;
    assert(effects@ =~= before + acquire_effects(all, primary@, *options, seen));
    for pair in it: keys.into_iter()
        invariant
            all == it.seq(),
            seen.len() == it.index(),
            forall|i: int| 0 <= i < seen.len() ==> (#[trigger] seen[i]) is Ok,
            collect_locks(seen) == Ok::<Seq<StorageResult<()>>, Error>(locks@),
            locks@.len() == 0,
            before == old(effects)@,
            effects@ == before + acquire_effects(all, primary@, *options, seen),
    {
        let (k, should_not_exist) = pair;
        let reply = acquire_pessimistic_lock(txn, k, primary, should_not_exist, options, effects);
        proof {
            assert(seen.push(reply).drop_last() =~= seen);
            assert(effects@ =~= before + acquire_effects(all, primary@, *options, seen.push(reply)));
            seen = seen.push(reply);
        }
        match collect_lock(&mut locks, reply) {
            Err(e) => {
                let r = Err(e);
                assert(acquire_run(all.len(), seen, r));
                return r;
            },
            Ok(collected) => {
                if collected {
                    let r = Ok(locks);
                    assert(acquire_run(all.len(), seen, r));
                    return r;
                }
            },
        }
    }
    let r = Ok(locks);
    assert(acquire_run(all.len(), seen, r));
    r
}

/// A lock acquisition collects at most one conflict: the last answer.
pub proof fn lemma_acquire_run(n: nat, replies: Seq<Result<(), MvccError>>, r: Result<Vec<StorageResult<()>>, Error>)
    requires
        acquire_run(n, replies, r),
    ensures
        r matches Ok(locks) ==> locks@.len() <= 1 && (locks@.len() == 1 ==> replies.len() > 0 && is_conflict(
            replies.last(),
        ) && locks@[0] == locked_entry(replies.last()->Err_0)),
        r is Err ==> replies.len() > 0 && is_fatal(replies.last()) && r == Err::<Vec<StorageResult<()>>, Error>(
            Error::Mvcc(replies.last()->Err_0),
        ),
{
    if replies.len() > 0 {
        let front = replies.drop_last();
        lemma_collect_locks(front);
        assert(forall|i: int| 0 <= i < front.len() ==> front[i] == replies[i]);
        assert(forall|i: int| 0 <= i < front.len() ==> (#[trigger] front[i]) is Ok);
        assert(collect_locks(front) is Ok);
        assert(collect_locks(front)->Ok_0.len() == 0);
        assert(collect_locks(front)->Ok_0 =~= Seq::empty());
    }
}

/// Whether `wr` asks to wait for the lock that `entry` reports.
pub open spec fn waits_for(wr: WriteResult, entry: StorageResult<()>, options: Options) -> bool {
    &&& wr.lock_info is Some
    &&& wr.lock_info->Some_0.0.ts == locked_entry_ts(entry)
    &&& wr.lock_info->Some_0.0.key@ == locked_entry_key(entry)
    &&& wr.lock_info->Some_0.1 == options.is_first_lock
    &&& wr.lock_info->Some_0.2 == options.wait_timeout
}

/// Outcome of a pessimistic lock acquisition on `n` keys, given what the
/// MVCC layer answered.
///
/// Acquisition is fail-fast: the first lock conflict ends it, nothing is
/// written, and the command asks to wait for that lock.
pub open spec fn acquire_result(
    ctx: Context,
    n: nat,
    options: Options,
    begin: Result<(), MvccError>,
    replies: Seq<Result<(), MvccError>>,
    modifies: Vec<Modify>,
    r: Result<WriteResult, Error>,
) -> bool {
    match begin {
        Err(e) => r == Err::<WriteResult, Error>(Error::Mvcc(e)),
        Ok(_) => {
            &&& replies.len() <= n
            &&& forall|i: int| 0 <= i < replies.len() - 1 ==> (#[trigger] replies[i]) is Ok
            &&& match collect_locks(replies) {
                Err(e) => r == Err::<WriteResult, Error>(e),
                Ok(locks) => {
                    &&& r is Ok
                    &&& is_multi_res(r->Ok_0.pr, locks)
                    &&& if locks.len() == 0 {
                        replies.len() == n && writes_batch(r->Ok_0, ctx, n, modifies)
                    } else {
                        writes_nothing(r->Ok_0, ctx) && waits_for(r->Ok_0, locks[0], options)
                    }
                },
            }
        },
    }
}

/// What a pessimistic lock acquisition does and yields: the outcome that
/// `acquire_result` gives for the answers of the MVCC layer, which are
/// those on the record of effects. The modifications are taken only if no
/// key met a conflict, and the counters of the transaction are added to
/// those of the caller.
pub open spec fn acquire_outcome(
    ctx: Context,
    keys: Seq<(Key, bool)>,
    primary: Seq<u8>,
    start_ts: u64,
    options: Options,
    counters: (Statistics, Statistics),
    effects: (Seq<Effect>, Seq<Effect>),
    r: Result<WriteResult, Error>,
) -> bool {
    exists|
        begin: Result<(), MvccError>,
        replies: Seq<Result<(), MvccError>>,
        stats: Statistics,
        modifies: Vec<Modify>,
    |
        {
            &&& #[trigger] acquire_result(ctx, keys.len(), options, begin, replies, modifies, r)
            &&& effects.1 == effects.0 + #[trigger] in_txn(
                start_ts,
                ctx.fill_cache(),
                begin,
                acquire_effects(keys, primary, options, replies),
                stats,
                taken_if(all_prewritten(replies), modifies),
            )
            &&& counters.1 == counted(counters.0, begin, stats)
        }
}

/// Runs a pessimistic lock acquisition.
pub fn process_acquire_pessimistic_lock<S: Snapshot>(
    snapshot: S,
    ctx: Context,
    keys: Vec<(Key, bool)>,
    primary: Vec<u8>,
    start_ts: u64,
    options: Options,
    statistics: &mut Statistics,
    effects: &mut Effects,
) -> (r: Result<WriteResult, Error>)
    ensures
        acquire_outcome(
            ctx,
            keys@,
            primary@,
            start_ts,
            options,
            (*old(statistics), *final(statistics)),
            (old(effects)@, final(effects)@),
            r,
        ),
        r is Ok ==> r->Ok_0.wf(),
{
    let ghost all = keys@;
    let ghost n = keys@.len();
    let ghost before = effects@;
    let rows = keys.len();
    let opened = open_txn(snapshot, start_ts, ctx.fill_cache(), effects);
    let mut txn = match opened {
        Ok(txn) => txn,
        Err(e) => {
            let r = Err(Error::Mvcc(e));
            proof {
                let none: Seq<Result<(), MvccError>> = Seq::empty();
                assert(acquire_result(ctx, n, options, Err(e), none, arbitrary(), r));
                assert(effects@ =~= before + in_txn(
                    start_ts,
                    ctx.fill_cache(),
                    Err(e),
                    acquire_effects(all, primary@, options, none),
                    arbitrary(),
                    taken_if(all_prewritten(none), arbitrary()),
                ));
            }
            return r;
        },
    };
    let ghost opened_at = effects@;
    let collected = acquire_all(&mut txn, keys, &primary, &options, effects);
    let ghost replies = choose|replies: Seq<Result<(), MvccError>>|
        acquire_run(n, replies, collected) && effects@ == opened_at + acquire_effects(
            all,
            primary@,
            options,
            replies,
        );
    let stats = take_statistics(&mut txn, effects);
    statistics.add(&stats);
    match collected {
        Err(e) => {
            let r = Err(e);
            proof {
                assert(acquire_result(ctx, n, options, Ok(()), replies, arbitrary(), r));
                assert(effects@ =~= before + in_txn(
                    start_ts,
                    ctx.fill_cache(),
                    Ok(()),
                    acquire_effects(all, primary@, options, replies),
                    stats,
                    taken_if(all_prewritten(replies), arbitrary()),
                ));
            }
            r
        },
        Ok(locks) => {
            proof {
                lemma_acquire_run(n, replies, collected);
                lemma_collect_locks(replies);
            }
            if locks.len() == 0 {
                let modifies = into_modifies(txn, effects);
                let r = Ok(
                    WriteResult {
                        ctx,
                        to_be_write: modifies,
                        rows,
                        pr: ProcessResult::MultiRes { results: locks },
                        lock_info: None,
                    },
                );
                proof {
                    assert(acquire_result(ctx, n, options, Ok(()), replies, modifies, r));
                    assert(effects@ =~= before + in_txn(
                        start_ts,
                        ctx.fill_cache(),
                        Ok(()),
                        acquire_effects(all, primary@, options, replies),
                        stats,
                        taken_if(all_prewritten(replies), modifies),
                    ));
                }
                r
            } else {
                let lock = extract_lock_from_result(&locks[0]);
                let lock_info = Some((lock, options.is_first_lock, options.wait_timeout));
                // Nothing is written: the command waits for the lock.
                let r = Ok(
                    WriteResult {
                        ctx,
                        to_be_write: Vec::new(),
                        rows: 0,
                        pr: ProcessResult::MultiRes { results: locks },
                        lock_info,
                    },
                );
                proof {
                    assert(acquire_result(ctx, n, options, Ok(()), replies, arbitrary(), r));
                    assert(effects@ =~= before + in_txn(
                        start_ts,
                        ctx.fill_cache(),
                        Ok(()),
                        acquire_effects(all, primary@, options, replies),
                        stats,
                        taken_if(all_prewritten(replies), arbitrary()),
                    ));
                }
                r
            }
        },
    }
}

} // verus!
