//! The write processor: what each write command does to a transaction on
//! a snapshot, and what it hands back.
//!
//! The answers of the MVCC layer are not known in advance. Each command is
//! therefore described by two things: a relation between those answers
//! and its outcome, and the questions that it asks given those answers.
//! The functions promise that the record of effects grows by exactly
//! those questions, with the answers that were given, and that their
//! outcome is the one that the relation gives for those answers.

pub mod conflicts;
pub mod prewrite;
pub mod acquire;
pub mod release;
pub mod resolve;
pub mod heart_beat;

use vstd::prelude::*;
use crate::command::Command;
use crate::effects::{all_inward, all_of_mvcc, grew_inward, Effect, Effects};
use crate::errors::{Error, StorageResult};
use crate::kv::{Context, Key, Modify};
use crate::lock_manager::{
    group_views,
    wake_up_all,
    wake_ups,
    LockMgr,
    ReleasedLocks,
    ReleasedLocksView,
};
use crate::mvcc::{MvccError, Release, ReleasedLock, Snapshot, Statistics};
use crate::scheduler::{ProcessResult, WriteResult};
use crate::write::acquire::{
    acquire_effects,
    acquire_outcome,
    acquire_result,
    process_acquire_pessimistic_lock,
};
use crate::write::heart_beat::{
    heart_beat_effects,
    heart_beat_outcome,
    heart_beat_result,
    process_txn_heart_beat,
};
use crate::write::prewrite::{
    all_prewritten,
    prewrite_effects,
    prewrite_outcome,
    prewrite_result,
    process_prewrite,
};
use crate::write::release::{
    process_release,
    release_effects,
    release_outcome,
    release_result,
    released,
};
use crate::write::resolve::{
    all_status_known,
    lemma_resolve_of_mvcc,
    process_resolve_lock,
    resolve_effects,
    resolve_lite_action,
    resolve_outcome,
    resolve_result,
    resolved_batch,
    spec_resolve_lite_action,
    ResolveReply,
};

verus! {

/// Whether `pr` reports these per-key entries.
pub open spec fn is_multi_res(pr: ProcessResult, results: Seq<StorageResult<()>>) -> bool {
    pr is MultiRes && pr->results@ == results
}

/// Whether `wr` hands the modifications of the transaction to the engine,
/// on behalf of `rows` keys.
pub open spec fn writes_batch(wr: WriteResult, ctx: Context, rows: nat, modifies: Vec<Modify>) -> bool {
    &&& wr.ctx == ctx
    &&& wr.to_be_write == modifies
    &&& wr.rows == rows
    &&& wr.lock_info is None
}

/// Whether `wr` persists nothing.
pub open spec fn writes_nothing(wr: WriteResult, ctx: Context) -> bool {
    &&& wr.ctx == ctx
    &&& wr.to_be_write@.len() == 0
    &&& wr.rows == 0
}

/// What a command asks of the MVCC layer when it works in a transaction
/// opened at `start_ts`. It opens the transaction. If that succeeds, it
/// does its `work`, takes the counters of the transaction and, if it has
/// something to persist, takes the modifications.
pub open spec fn in_txn(
    start_ts: u64,
    fill_cache: bool,
    begin: Result<(), MvccError>,
    work: Seq<Effect>,
    stats: Statistics,
    modifies: Option<Vec<Modify>>,
) -> Seq<Effect> {
    seq![Effect::OpenTxn { start_ts, fill_cache, reply: begin }] + match begin {
        Err(_) => Seq::empty(),
        Ok(_) => work + seq![Effect::TakeStatistics { reply: stats }] + match modifies {
            Some(reply) => seq![Effect::IntoModifies { reply }],
            None => Seq::empty(),
        },
    }
}

/// The modifications that a command takes, if it has something to
/// persist.
pub open spec fn taken_if(persists: bool, modifies: Vec<Modify>) -> Option<Vec<Modify>> {
    if persists {
        Some(modifies)
    } else {
        None
    }
}

/// The counters of the caller after such a command: those of the
/// transaction are added to them, if there was one.
pub open spec fn counted(before: Statistics, begin: Result<(), MvccError>, stats: Statistics) -> Statistics {
    match begin {
        Err(_) => before,
        Ok(_) => before.plus(stats),
    }
}

/// A commit timestamp has to be after the start timestamp of its
/// transaction.
pub fn check_commit_ts(lock_ts: u64, commit_ts: u64) -> (r: Result<(), Error>)
    ensures
        commit_ts > lock_ts ==> r is Ok,
        commit_ts <= lock_ts ==> r == Err::<(), Error>(Error::InvalidTxnTso { start_ts: lock_ts, commit_ts }),
{
    if commit_ts <= lock_ts {
        Err(Error::InvalidTxnTso { start_ts: lock_ts, commit_ts })
    } else {
        Ok(())
    }
}

/// Whether the write processor handles the command.
pub open spec fn spec_supports_write(cmd: &Command) -> bool {
    match *cmd {
        Command::Prewrite { .. } => true,
        Command::AcquirePessimisticLock { .. } => true,
        Command::Commit { .. } => true,
        Command::Cleanup { .. } => true,
        Command::Rollback { .. } => true,
        Command::PessimisticRollback { .. } => true,
        Command::ResolveLock { .. } => true,
        Command::ResolveLockLite { .. } => true,
        Command::TxnHeartBeat { .. } => true,
        Command::Pause { .. } => true,
        _ => false,
    }
}

/// Whether the write processor handles the command and the command is
/// well formed: a pessimistic prewrite has one flag for each mutation, and
/// a command that resolves locks knows the end of each transaction whose
/// lock it has in hand.
pub open spec fn spec_write_ready(cmd: &Command) -> bool {
    &&& spec_supports_write(cmd)
    &&& match *cmd {
        Command::Prewrite { mutations, options, .. } => options.for_update_ts != 0
            ==> options.is_pessimistic_lock@.len() == mutations@.len(),
        Command::ResolveLock { txn_status, key_locks, .. } => all_status_known(key_locks@, txn_status@),
        _ => true,
    }
}

#[verifier::loop_isolation(false)]
#[verifier::when_used_as_spec(spec_write_ready)]
pub fn write_ready(cmd: &Command) -> (r: bool)
    ensures
        r == spec_write_ready(cmd),
{
    broadcast use vstd::std_specs::hash::group_hash_axioms;

    match cmd {
        Command::Prewrite { mutations, options, .. } => options.for_update_ts == 0
            || options.is_pessimistic_lock.len() == mutations.len(),
        Command::ResolveLock { txn_status, key_locks, .. } => {
            let mut i: usize = 0;
            while i < key_locks.len()
                invariant
                    i <= key_locks.len(),
                    forall|k: int| 0 <= k < i ==> txn_status@.contains_key((#[trigger] key_locks@[k]).1.ts),
                decreases key_locks.len() - i,
            {
                if !txn_status.contains_key(&key_locks[i].1.ts) {
                    assert(!txn_status@.contains_key(key_locks@[i as int].1.ts));
                    return false;
                }
                i += 1;
            }
            true
        },
        Command::AcquirePessimisticLock { .. } => true,
        Command::Commit { .. } => true,
        Command::Cleanup { .. } => true,
        Command::Rollback { .. } => true,
        Command::PessimisticRollback { .. } => true,
        Command::ResolveLockLite { .. } => true,
        Command::TxnHeartBeat { .. } => true,
        Command::Pause { .. } => true,
        _ => false,
    }
}

/// What a write command does and yields, whatever the MVCC layer
/// answers: its result, the aggregates by which waiting transactions are
/// to be woken, what it asked of the MVCC layer, and the counters of the
/// caller afterwards.
pub open spec fn write_outcome(
    cmd: Command,
    counters: (Statistics, Statistics),
    effects: (Seq<Effect>, Seq<Effect>),
    r: Result<WriteResult, Error>,
    woken: Seq<ReleasedLocksView>,
) -> bool {
    match cmd {
        Command::Prewrite { ctx, mutations, primary, start_ts, options } => prewrite_outcome(
            ctx,
            mutations@,
            primary@,
            start_ts,
            options,
            counters,
            effects,
            r,
        ) && woken.len() == 0,
        Command::AcquirePessimisticLock { ctx, keys, primary, start_ts, options } => acquire_outcome(
            ctx,
            keys@,
            primary@,
            start_ts,
            options,
            counters,
            effects,
            r,
        ) && woken.len() == 0,
        Command::Commit { ctx, keys, lock_ts, commit_ts } => if commit_ts <= lock_ts {
            &&& r == Err::<WriteResult, Error>(Error::InvalidTxnTso { start_ts: lock_ts, commit_ts })
            &&& woken.len() == 0
            &&& effects.1 == effects.0
            &&& counters.1 == counters.0
        } else {
            release_outcome(
                ctx,
                keys@,
                Release::Commit { commit_ts },
                lock_ts,
                commit_ts,
                false,
                counters,
                effects,
                r,
                woken,
            )
        },
        Command::Cleanup { ctx, key, start_ts, current_ts } => release_outcome(
            ctx,
            seq![key],
            Release::Cleanup { current_ts },
            start_ts,
            0,
            false,
            counters,
            effects,
            r,
            woken,
        ),
        Command::Rollback { ctx, keys, start_ts } => release_outcome(
            ctx,
            keys@,
            Release::Rollback,
            start_ts,
            0,
            false,
            counters,
            effects,
            r,
            woken,
        ),
        Command::PessimisticRollback { ctx, keys, start_ts, for_update_ts } => release_outcome(
            ctx,
            keys@,
            Release::PessimisticRollback { for_update_ts },
            start_ts,
            0,
            true,
            counters,
            effects,
            r,
            woken,
        ),
        Command::ResolveLock { ctx, txn_status, scan_key, key_locks } => resolve_outcome(
            ctx,
            key_locks@,
            txn_status,
            scan_key,
            counters,
            effects,
            r,
            woken,
        ),
        Command::ResolveLockLite { ctx, start_ts, commit_ts, resolve_keys } => match spec_resolve_lite_action(
            start_ts,
            commit_ts,
            resolve_keys@.len(),
        ) {
            Err(err) => {
                &&& r == Err::<WriteResult, Error>(err)
                &&& woken.len() == 0
                &&& effects.1 == effects.0
                &&& counters.1 == counters.0
            },
            Ok(how) => release_outcome(
                ctx,
                resolve_keys@,
                how,
                start_ts,
                commit_ts,
                false,
                counters,
                effects,
                r,
                woken,
            ),
        },
        Command::TxnHeartBeat { ctx, primary_key, start_ts, advise_ttl } => heart_beat_outcome(
            ctx,
            primary_key@,
            start_ts,
            advise_ttl,
            counters,
            effects,
            r,
        ) && woken.len() == 0,
        Command::Pause { ctx, .. } => {
            &&& r is Ok
            &&& writes_nothing(r->Ok_0, ctx)
            &&& r->Ok_0.lock_info is None
            &&& r->Ok_0.pr == ProcessResult::Res
            &&& woken.len() == 0
            &&& effects.1 == effects.0
            &&& counters.1 == counters.0
        },
        _ => true,
    }
}

/// Runs a write command on the snapshot. Returns its result and, for each
/// transaction of which the command set locks free, the aggregate by which
/// its waiters are to be woken.
///
/// A pause yields at once: holding up the worker is left to the caller.
pub fn write_command<S: Snapshot>(
    cmd: Command,
    snapshot: S,
    statistics: &mut Statistics,
    effects: &mut Effects,
) -> (r: (Result<WriteResult, Error>, Vec<ReleasedLocks>))
    requires
        spec_write_ready(&cmd),
    ensures
        write_outcome(
            cmd,
            (*old(statistics), *final(statistics)),
            (old(effects)@, final(effects)@),
            r.0,
            group_views(r.1@),
        ),
        r.0 is Ok ==> r.0->Ok_0.wf(),
{
    match cmd {
        Command::Prewrite { ctx, mutations, primary, start_ts, options } => {
            let r = process_prewrite(snapshot, ctx, mutations, primary, start_ts, options, statistics, effects);
            (r, Vec::new())
        },
        Command::AcquirePessimisticLock { ctx, keys, primary, start_ts, options } => {
            let r = process_acquire_pessimistic_lock(
                snapshot,
                ctx,
                keys,
                primary,
                start_ts,
                options,
                statistics,
                effects,
            );
            (r, Vec::new())
        },
        Command::Commit { ctx, keys, lock_ts, commit_ts } => {
            match check_commit_ts(lock_ts, commit_ts) {
                Err(e) => (Err(e), Vec::new()),
                Ok(_) => process_release(
                    snapshot,
                    ctx,
                    keys,
                    Release::Commit { commit_ts },
                    lock_ts,
                    commit_ts,
                    false,
                    statistics,
                    effects,
                ),
            }
        },
        Command::Cleanup { ctx, key, start_ts, current_ts } => {
            let mut keys: Vec<Key> = Vec::new();
            keys.push(key);
            assert(keys@ =~= seq![key]);
            process_release(
                snapshot,
                ctx,
                keys,
                Release::Cleanup { current_ts },
                start_ts,
                0,
                false,
                statistics,
                effects,
            )
        },
        Command::Rollback { ctx, keys, start_ts } => {
            process_release(snapshot, ctx, keys, Release::Rollback, start_ts, 0, false, statistics, effects)
        },
        Command::PessimisticRollback { ctx, keys, start_ts, for_update_ts } => {
            process_release(
                snapshot,
                ctx,
                keys,
                Release::PessimisticRollback { for_update_ts },
                start_ts,
                0,
                true,
                statistics,
                effects,
            )
        },
        Command::ResolveLock { ctx, txn_status, scan_key, key_locks } => {
            process_resolve_lock(snapshot, ctx, txn_status, scan_key, key_locks, statistics, effects)
        },
        Command::ResolveLockLite { ctx, start_ts, commit_ts, resolve_keys } => {
            // The client keeps the list of keys short, so the size of the
            // write batch needs no control here.
            match resolve_lite_action(start_ts, commit_ts, resolve_keys.len()) {
                Err(e) => (Err(e), Vec::new()),
                Ok(how) => process_release(
                    snapshot,
                    ctx,
                    resolve_keys,
                    how,
                    start_ts,
                    commit_ts,
                    false,
                    statistics,
                    effects,
                ),
            }
        },
        Command::TxnHeartBeat { ctx, primary_key, start_ts, advise_ttl } => {
            let r = process_txn_heart_beat(snapshot, ctx, primary_key, start_ts, advise_ttl, statistics, effects);
            (r, Vec::new())
        },
        Command::Pause { ctx, .. } => {
            let r = Ok(
                WriteResult { ctx, to_be_write: Vec::new(), rows: 0, pr: ProcessResult::Res, lock_info: None },
            );
            (r, Vec::new())
        },
        _ => unreached(),
    }
}

/// What `process_write_impl` does and yields: an outcome that
/// `write_outcome` allows, followed by one wake-up for each aggregate if
/// there is a lock manager.
pub open spec fn write_processed(
    cmd: Command,
    has_lock_mgr: bool,
    counters: (Statistics, Statistics),
    effects: (Seq<Effect>, Seq<Effect>),
    r: Result<WriteResult, Error>,
) -> bool {
    exists|woken: Seq<ReleasedLocksView>, asked: Seq<Effect>|
        {
            &&& #[trigger] write_outcome(cmd, counters, (effects.0, asked), r, woken)
            &&& effects.1 == asked + wake_ups(woken, has_lock_mgr)
        }
}

/// Runs a write command on the snapshot and wakes the transactions that
/// waited for the locks it set free.
pub fn process_write_impl<S: Snapshot, L: LockMgr>(
    cmd: Command,
    snapshot: S,
    lock_mgr: Option<L>,
    statistics: &mut Statistics,
    effects: &mut Effects,
) -> (r: Result<WriteResult, Error>)
    requires
        spec_write_ready(&cmd),
        cmd is PessimisticRollback ==> lock_mgr is Some,
    ensures
        write_processed(
            cmd,
            lock_mgr is Some,
            (*old(statistics), *final(statistics)),
            (old(effects)@, final(effects)@),
            r,
        ),
        r is Ok ==> r->Ok_0.wf(),
{
    let (r, released) = write_command(cmd, snapshot, statistics, effects);
    let ghost asked = effects@;
    wake_up_all(released, lock_mgr.as_ref(), effects);
    proof {
        let counters = (*old(statistics), *statistics);
        let record = (old(effects)@, effects@);
        assert(write_outcome(cmd, counters, (record.0, asked), r, group_views(released@)));
        assert(record.1 == asked + wake_ups(group_views(released@), lock_mgr is Some));
    }
    r
}

/// Commit monotonicity. A commit whose commit timestamp is not after the
/// start timestamp of the transaction fails with `InvalidTxnTso`, whatever
/// the store holds: nothing is asked of the MVCC layer, nothing is handed
/// to the engine and nobody is woken.
pub proof fn lemma_commit_monotonicity(
    ctx: Context,
    keys: Vec<Key>,
    lock_ts: u64,
    commit_ts: u64,
    has_lock_mgr: bool,
    counters: (Statistics, Statistics),
    effects: (Seq<Effect>, Seq<Effect>),
    r: Result<WriteResult, Error>,
)
    requires
        commit_ts <= lock_ts,
        write_processed(Command::Commit { ctx, keys, lock_ts, commit_ts }, has_lock_mgr, counters, effects, r),
    ensures
        r == Err::<WriteResult, Error>(Error::InvalidTxnTso { start_ts: lock_ts, commit_ts }),
        effects.1 == effects.0,
        counters.1 == counters.0,
{
    assert(wake_ups(Seq::empty(), has_lock_mgr) =~= Seq::empty());
    let cmd = Command::Commit { ctx, keys, lock_ts, commit_ts };
    let (woken, asked) = choose|woken: Seq<ReleasedLocksView>, asked: Seq<Effect>|
        {
            &&& #[trigger] write_outcome(cmd, counters, (effects.0, asked), r, woken)
            &&& effects.1 == asked + wake_ups(woken, has_lock_mgr)
        };
    assert(woken =~= Seq::empty());
    assert(effects.1 =~= effects.0);
}

/// A command that works in a transaction asks of the MVCC layer only, if
/// its work does.
pub proof fn lemma_in_txn_of_mvcc(
    start_ts: u64,
    fill_cache: bool,
    begin: Result<(), MvccError>,
    work: Seq<Effect>,
    stats: Statistics,
    modifies: Option<Vec<Modify>>,
)
    requires
        all_of_mvcc(work),
    ensures
        all_of_mvcc(in_txn(start_ts, fill_cache, begin, work, stats, modifies)),
{
}

/// Whether a write command was processed by asking of the MVCC layer
/// first, and then waking the lock manager, if there is one, once for each
/// aggregate of `woken`.
pub open spec fn woke_after_work(
    cmd: Command,
    has_lock_mgr: bool,
    counters: (Statistics, Statistics),
    effects: (Seq<Effect>, Seq<Effect>),
    r: Result<WriteResult, Error>,
    work: Seq<Effect>,
    woken: Seq<ReleasedLocksView>,
) -> bool {
    &&& write_outcome(cmd, counters, (effects.0, effects.0 + work), r, woken)
    &&& all_of_mvcc(work)
    &&& effects.1 == effects.0 + work + wake_ups(woken, has_lock_mgr)
}

/// Wake-up grouping, for the write processor. Processing a write command
/// asks of the MVCC layer first. Only then, and only if there is a lock
/// manager, the lock manager is woken: exactly once for each aggregate
/// that the command yields, with what the aggregate holds. Nothing is
/// asked of the scheduler or of the engine.
pub proof fn lemma_wake_ups_follow_work(
    cmd: Command,
    has_lock_mgr: bool,
    counters: (Statistics, Statistics),
    effects: (Seq<Effect>, Seq<Effect>),
    r: Result<WriteResult, Error>,
)
    requires
        spec_supports_write(&cmd),
        write_processed(cmd, has_lock_mgr, counters, effects, r),
    ensures
        exists|work: Seq<Effect>, woken: Seq<ReleasedLocksView>|
            woke_after_work(cmd, has_lock_mgr, counters, effects, r, work, woken),
        grew_inward(effects),
{
    let (woken, asked) = choose|woken: Seq<ReleasedLocksView>, asked: Seq<Effect>|
        {
            &&& #[trigger] write_outcome(cmd, counters, (effects.0, asked), r, woken)
            &&& effects.1 == asked + wake_ups(woken, has_lock_mgr)
        };
    let record = (effects.0, asked);
    let work: Seq<Effect> = match cmd {
        Command::Prewrite { ctx, mutations, primary, start_ts, options } => {
            let (begin, replies, stats, modifies) = choose|
                begin: Result<(), MvccError>,
                replies: Seq<Result<(), MvccError>>,
                stats: Statistics,
                modifies: Vec<Modify>,
            |
                {
                    &&& #[trigger] prewrite_result(ctx, mutations@.len(), begin, replies, modifies, r)
                    &&& record.1 == record.0 + #[trigger] in_txn(
                        start_ts,
                        ctx.fill_cache(),
                        begin,
                        prewrite_effects(mutations@, primary@, options, replies),
                        stats,
                        taken_if(all_prewritten(replies), modifies),
                    )
                    &&& counters.1 == counted(counters.0, begin, stats)
                };
            let work = prewrite_effects(mutations@, primary@, options, replies);
            lemma_in_txn_of_mvcc(
                start_ts,
                ctx.fill_cache(),
                begin,
                work,
                stats,
                taken_if(all_prewritten(replies), modifies),
            );
            in_txn(start_ts, ctx.fill_cache(), begin, work, stats, taken_if(all_prewritten(replies), modifies))
        },
        Command::AcquirePessimisticLock { ctx, keys, primary, start_ts, options } => {
            let (begin, replies, stats, modifies) = choose|
                begin: Result<(), MvccError>,
                replies: Seq<Result<(), MvccError>>,
                stats: Statistics,
                modifies: Vec<Modify>,
            |
                {
                    &&& #[trigger] acquire_result(ctx, keys@.len(), options, begin, replies, modifies, r)
                    &&& record.1 == record.0 + #[trigger] in_txn(
                        start_ts,
                        ctx.fill_cache(),
                        begin,
                        acquire_effects(keys@, primary@, options, replies),
                        stats,
                        taken_if(all_prewritten(replies), modifies),
                    )
                    &&& counters.1 == counted(counters.0, begin, stats)
                };
            let work = acquire_effects(keys@, primary@, options, replies);
            lemma_in_txn_of_mvcc(
                start_ts,
                ctx.fill_cache(),
                begin,
                work,
                stats,
                taken_if(all_prewritten(replies), modifies),
            );
            in_txn(start_ts, ctx.fill_cache(), begin, work, stats, taken_if(all_prewritten(replies), modifies))
        },
        Command::Commit { ctx, keys, lock_ts, commit_ts } => {
            if commit_ts <= lock_ts {
                Seq::empty()
            } else {
                lemma_release_of_mvcc(
                    ctx,
                    keys@,
                    Release::Commit { commit_ts },
                    lock_ts,
                    commit_ts,
                    false,
                    counters,
                    record,
                    r,
                    woken,
                )
            }
        },
        Command::Cleanup { ctx, key, start_ts, current_ts } => lemma_release_of_mvcc(
            ctx,
            seq![key],
            Release::Cleanup { current_ts },
            start_ts,
            0,
            false,
            counters,
            record,
            r,
            woken,
        ),
        Command::Rollback { ctx, keys, start_ts } => lemma_release_of_mvcc(
            ctx,
            keys@,
            Release::Rollback,
            start_ts,
            0,
            false,
            counters,
            record,
            r,
            woken,
        ),
        Command::PessimisticRollback { ctx, keys, start_ts, for_update_ts } => lemma_release_of_mvcc(
            ctx,
            keys@,
            Release::PessimisticRollback { for_update_ts },
            start_ts,
            0,
            true,
            counters,
            record,
            r,
            woken,
        ),
        Command::ResolveLock { ctx, txn_status, scan_key, key_locks } => {
            let (begin, replies, stats, modifies) = choose|
                begin: Result<(), MvccError>,
                replies: Seq<ResolveReply>,
                stats: Statistics,
                modifies: Vec<Modify>,
            |
                {
                    &&& #[trigger] resolve_result(
                        ctx,
                        key_locks@,
                        txn_status,
                        scan_key,
                        begin,
                        replies,
                        modifies,
                        r,
                        woken,
                    )
                    &&& record.1 == record.0 + #[trigger] in_txn(
                        0,
                        ctx.fill_cache(),
                        begin,
                        resolve_effects(key_locks@, txn_status@, replies),
                        stats,
                        taken_if(resolved_batch(key_locks@, txn_status@, replies), modifies),
                    )
                    &&& counters.1 == counted(counters.0, begin, stats)
                };
            let work = resolve_effects(key_locks@, txn_status@, replies);
            lemma_resolve_of_mvcc(key_locks@, txn_status@, replies);
            lemma_in_txn_of_mvcc(
                0,
                ctx.fill_cache(),
                begin,
                work,
                stats,
                taken_if(resolved_batch(key_locks@, txn_status@, replies), modifies),
            );
            in_txn(
                0,
                ctx.fill_cache(),
                begin,
                work,
                stats,
                taken_if(resolved_batch(key_locks@, txn_status@, replies), modifies),
            )
        },
        Command::ResolveLockLite { ctx, start_ts, commit_ts, resolve_keys } => match spec_resolve_lite_action(
            start_ts,
            commit_ts,
            resolve_keys@.len(),
        ) {
            Err(_) => Seq::empty(),
            Ok(how) => lemma_release_of_mvcc(
                ctx,
                resolve_keys@,
                how,
                start_ts,
                commit_ts,
                false,
                counters,
                record,
                r,
                woken,
            ),
        },
        Command::TxnHeartBeat { ctx, primary_key, start_ts, advise_ttl } => {
            let (begin, reply, stats, modifies) = choose|
                begin: Result<(), MvccError>,
                reply: Result<u64, MvccError>,
                stats: Statistics,
                modifies: Vec<Modify>,
            |
                {
                    &&& #[trigger] heart_beat_result(ctx, begin, reply, modifies, r)
                    &&& record.1 == record.0 + #[trigger] in_txn(
                        start_ts,
                        ctx.fill_cache(),
                        begin,
                        heart_beat_effects(primary_key@, advise_ttl, reply),
                        stats,
                        taken_if(reply is Ok, modifies),
                    )
                    &&& counters.1 == counted(counters.0, begin, stats)
                };
            let work = heart_beat_effects(primary_key@, advise_ttl, reply);
            lemma_in_txn_of_mvcc(start_ts, ctx.fill_cache(), begin, work, stats, taken_if(reply is Ok, modifies));
            in_txn(start_ts, ctx.fill_cache(), begin, work, stats, taken_if(reply is Ok, modifies))
        },
        _ => Seq::empty(),
    };
    assert(asked =~= effects.0 + work);
    assert(all_of_mvcc(work));
    assert(effects.1 =~= effects.0 + work + wake_ups(woken, has_lock_mgr));
    assert(woke_after_work(cmd, has_lock_mgr, counters, effects, r, work, woken));
    let added = work + wake_ups(woken, has_lock_mgr);
    assert(effects.1 =~= effects.0 + added);
    assert(all_inward(added));
}

/// What a command that takes the locks off keys asked, and of the MVCC
/// layer only.
proof fn lemma_release_of_mvcc(
    ctx: Context,
    keys: Seq<Key>,
    how: Release,
    start_ts: u64,
    commit_ts: u64,
    multi: bool,
    counters: (Statistics, Statistics),
    effects: (Seq<Effect>, Seq<Effect>),
    r: Result<WriteResult, Error>,
    woken: Seq<ReleasedLocksView>,
) -> (work: Seq<Effect>)
    requires
        release_outcome(ctx, keys, how, start_ts, commit_ts, multi, counters, effects, r, woken),
    ensures
        effects.1 == effects.0 + work,
        all_of_mvcc(work),
{
    let (begin, replies, stats, modifies) = choose|
        begin: Result<(), MvccError>,
        replies: Seq<Result<Option<ReleasedLock>, MvccError>>,
        stats: Statistics,
        modifies: Vec<Modify>,
    |
        {
            &&& #[trigger] release_result(
                ctx,
                keys.len(),
                ReleasedLocksView::empty(start_ts, commit_ts),
                multi,
                begin,
                replies,
                modifies,
                r,
                woken,
            )
            &&& effects.1 == effects.0 + #[trigger] in_txn(
                start_ts,
                ctx.fill_cache(),
                begin,
                release_effects(keys, how, replies),
                stats,
                taken_if(released(replies) is Ok, modifies),
            )
            &&& counters.1 == counted(counters.0, begin, stats)
        };
    let work = release_effects(keys, how, replies);
    lemma_in_txn_of_mvcc(start_ts, ctx.fill_cache(), begin, work, stats, taken_if(released(replies) is Ok, modifies));
    in_txn(start_ts, ctx.fill_cache(), begin, work, stats, taken_if(released(replies) is Ok, modifies))
}

/// Resolving the keys of a transaction at a commit timestamp that is
/// neither zero nor after the start timestamp of the transaction fails
/// with `InvalidTxnTso`, whatever the store holds, if there is a key to
/// resolve: nothing is asked of the MVCC layer, nothing is handed to the
/// engine and nobody is woken.
pub proof fn lemma_resolve_lite_refused(
    ctx: Context,
    start_ts: u64,
    commit_ts: u64,
    resolve_keys: Vec<Key>,
    has_lock_mgr: bool,
    counters: (Statistics, Statistics),
    effects: (Seq<Effect>, Seq<Effect>),
    r: Result<WriteResult, Error>,
)
    requires
        0 < commit_ts <= start_ts,
        resolve_keys@.len() > 0,
        write_processed(
            Command::ResolveLockLite { ctx, start_ts, commit_ts, resolve_keys },
            has_lock_mgr,
            counters,
            effects,
            r,
        ),
    ensures
        r == Err::<WriteResult, Error>(Error::InvalidTxnTso { start_ts, commit_ts }),
        effects.1 == effects.0,
        counters.1 == counters.0,
{
    assert(wake_ups(Seq::empty(), has_lock_mgr) =~= Seq::empty());
    let cmd = Command::ResolveLockLite { ctx, start_ts, commit_ts, resolve_keys };
    let (woken, asked) = choose|woken: Seq<ReleasedLocksView>, asked: Seq<Effect>|
        {
            &&& #[trigger] write_outcome(cmd, counters, (effects.0, asked), r, woken)
            &&& effects.1 == asked + wake_ups(woken, has_lock_mgr)
        };
    assert(woken =~= Seq::empty());
    assert(effects.1 =~= effects.0);
}

} // verus!
