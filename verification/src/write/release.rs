//! The commands that take the locks of one transaction off its keys:
//! commit, rollback, cleanup, pessimistic rollback, and the resolution of
//! the keys that a client names.

use vstd::prelude::*;
use crate::effects::{into_modifies, open_txn, release, take_statistics, Effect, Effects};
use crate::errors::Error;
use crate::kv::{Context, Key, Modify};
use crate::lock_manager::{
    any_pessimistic,
    frees_hash,
    group_views,
    lemma_push_all,
    lemma_released_hashes,
    released_hashes,
    ReleasedLocks,
    ReleasedLocksView,
};
use crate::mvcc::{MvccError, MvccTxn, Release, ReleasedLock, Snapshot, Statistics};
use crate::scheduler::{ProcessResult, WriteResult};
use crate::write::{counted, in_txn, is_multi_res, taken_if, writes_batch};

verus! {

/// The locks set free according to a sequence of answers, one entry for
/// each key, or the first error among the answers.
pub open spec fn released(replies: Seq<Result<Option<ReleasedLock>, MvccError>>) -> Result<
    Seq<Option<ReleasedLock>>,
    MvccError,
>
    decreases replies.len(),
{
    if replies.len() == 0 {
        Ok(Seq::empty())
    } else {
        match released(replies.drop_last()) {
            Err(e) => Err(e),
            Ok(locks) => match replies.last() {
                Ok(lock) => Ok(locks.push(lock)),
                Err(e) => Err(e),
            },
        }
    }
}

/// `released` succeeds if and only if every answer is a success, and then
/// holds what each answer set free; it fails with the first error.
pub proof fn lemma_released(replies: Seq<Result<Option<ReleasedLock>, MvccError>>)
    ensures
        released(replies) matches Ok(locks) ==> locks.len() == replies.len() && forall|i: int|
            0 <= i < replies.len() ==> (#[trigger] replies[i]) == Ok::<Option<ReleasedLock>, MvccError>(locks[i]),
        released(replies) matches Err(e) ==> exists|i: int|
            0 <= i < replies.len() && (#[trigger] replies[i]) == Err::<Option<ReleasedLock>, MvccError>(e)
                && forall|j: int| 0 <= j < i ==> (#[trigger] replies[j]) is Ok,
    decreases replies.len(),
{
    if replies.len() > 0 {
        let front = replies.drop_last();
        lemma_released(front);
        assert(forall|i: int| 0 <= i < front.len() ==> front[i] == replies[i]);
        match released(front) {
            Err(e) => {
                let i = choose|i: int|
                    0 <= i < front.len() && (#[trigger] front[i]) == Err::<Option<ReleasedLock>, MvccError>(e)
                        && forall|j: int| 0 <= j < i ==> (#[trigger] front[j]) is Ok;
                assert(replies[i] == front[i]);
                assert(forall|j: int| 0 <= j < i ==> front[j] == replies[j]);
            },
            Ok(locks) => {
                match replies.last() {
                    Ok(lock) => {},
                    Err(e) => {
                        let i = replies.len() - 1;
                        assert(replies[i] == Err::<Option<ReleasedLock>, MvccError>(e));
                        assert forall|j: int| 0 <= j < i implies (#[trigger] replies[j]) is Ok by {
                            assert(front[j] == replies[j]);
                        }
                    },
                }
            },
        }
    }
}

/// A run that takes locks off `n` keys of one transaction: every key is
/// handled unless an error ends the run, no key is handled after an
/// error, and `r` holds the aggregate of what was set free, or the error.
pub open spec fn release_run(
    n: nat,
    start: ReleasedLocksView,
    replies: Seq<Result<Option<ReleasedLock>, MvccError>>,
    r: Result<ReleasedLocks, Error>,
) -> bool {
    &&& replies.len() <= n
    &&& replies.len() > 0 ==> released(replies.drop_last()) is Ok
    &&& match released(replies) {
        Ok(locks) => replies.len() == n && r is Ok && r->Ok_0@ == start.push_all(locks),
        Err(e) => r is Err && r->Err_0 == Error::Mvcc(e),
    }
}

/// What a run that takes the locks off keys asks of the transaction: one
/// release for each key that the run comes to, in order.
pub open spec fn release_effects(
    keys: Seq<Key>,
    how: Release,
    replies: Seq<Result<Option<ReleasedLock>, MvccError>>,
) -> Seq<Effect> {
    Seq::new(replies.len(), |i: int| Effect::Release { key: keys[i]@, how, reply: replies[i] })
}

/// Whether a run took the locks off `keys`: `r` is what `release_run`
/// gives for the answers of the transaction, and the effects added are
/// the releases with those answers.
pub open spec fn released_all(
    keys: Seq<Key>,
    how: Release,
    start: ReleasedLocksView,
    before: Seq<Effect>,
    after: Seq<Effect>,
    r: Result<ReleasedLocks, Error>,
) -> bool {
    exists|replies: Seq<Result<Option<ReleasedLock>, MvccError>>|
        release_run(keys.len(), start, replies, r) && after == before + release_effects(keys, how, replies)
}

/// Takes the locks off every key in order and aggregates what was set
/// free, for the transaction started at `start_ts`.
pub fn release_all<T: MvccTxn>(
    txn: &mut T,
    keys: Vec<Key>,
    how: Release,
    start_ts: u64,
    commit_ts: u64,
    effects: &mut Effects,
) -> (r: Result<ReleasedLocks, Error>)
    ensures
        released_all(keys@, how, ReleasedLocksView::empty(start_ts, commit_ts), old(effects)@, final(effects)@, r),
{
    let mut released_locks = ReleasedLocks::new(start_ts, commit_ts);
    let ghost start = released_locks@;
    let ghost before = effects@;
    let ghost all = keys@;
    let ghost mut seen: Seq<Result<Option<ReleasedLock>, MvccError>> = Seq::empty();
    let ghost mut locks: Seq<Option<ReleasedLock>> = Seq::empty();
    assert(effects@ =~= before + release_effects(all, how, seen));
    for k in it: keys.into_iter()
        invariant
            all == it.seq(),
            seen.len() == it.index(),
            start == ReleasedLocksView::empty(start_ts, commit_ts),
            released(seen) == Ok::<Seq<Option<ReleasedLock>>, MvccError>(locks),
            released_locks@ == start.push_all(locks),
            before == old(effects)@,
            effects@ == before + release_effects(all, how, seen),
    {
        let reply = release(txn, k, how, effects);
        proof {
            assert(seen.push(reply).drop_last() =~= seen);
            assert(before + release_effects(all, how, seen.push(reply)) =~= (before + release_effects(
                all,
                how,
                seen,
            )).push(Effect::Release { key: k@, how, reply }));
            seen = seen.push(reply);
        }
        match reply {
            Ok(lock) => {
                released_locks.push(lock);
                proof {
                    assert(locks.push(lock).drop_last() =~= locks);
                    locks = locks.push(lock);
                }
            },
            Err(e) => {
                let r = Err(Error::Mvcc(e));
                assert(release_run(all.len(), start, seen, r));
                return r;
            },
        }
    }
    let r = Ok(released_locks);
    assert(release_run(all.len(), start, seen, r));
    r
}

/// Outcome of a command that takes locks off `n` keys of one transaction,
/// given what the MVCC layer answered: the modifications are handed to the
/// engine, and `woken` holds the one aggregate by which the waiters of the
/// transaction are woken. The first error ends the command: no key is
/// handled after it, and a failed command wakes nobody.
pub open spec fn release_result(
    ctx: Context,
    n: nat,
    start: ReleasedLocksView,
    multi: bool,
    begin: Result<(), MvccError>,
    replies: Seq<Result<Option<ReleasedLock>, MvccError>>,
    modifies: Vec<Modify>,
    r: Result<WriteResult, Error>,
    woken: Seq<ReleasedLocksView>,
) -> bool {
    match begin {
        Err(e) => r == Err::<WriteResult, Error>(Error::Mvcc(e)) && woken.len() == 0,
        Ok(_) => {
            &&& replies.len() <= n
            &&& replies.len() > 0 ==> released(replies.drop_last()) is Ok
            &&& match released(replies) {
                Err(e) => r == Err::<WriteResult, Error>(Error::Mvcc(e)) && woken.len() == 0,
                Ok(locks) => {
                    &&& replies.len() == n
                    &&& r is Ok
                    &&& writes_batch(r->Ok_0, ctx, n, modifies)
                    &&& if multi {
                        is_multi_res(r->Ok_0.pr, Seq::empty())
                    } else {
                        r->Ok_0.pr == ProcessResult::Res
                    }
                    &&& woken == seq![start.push_all(locks)]
                },
            }
        },
    }
}

/// What a command that takes the locks of the transaction started at
/// `start_ts` off `keys` does and yields: the outcome that `release_result`
/// gives for the answers of the MVCC layer, which are those on the record
/// of effects. The counters of the transaction are added to those of the
/// caller.
pub open spec fn release_outcome(
    ctx: Context,
    keys: Seq<Key>,
    how: Release,
    start_ts: u64,
    commit_ts: u64,
    multi: bool,
    counters: (Statistics, Statistics),
    effects: (Seq<Effect>, Seq<Effect>),
    r: Result<WriteResult, Error>,
    woken: Seq<ReleasedLocksView>,
) -> bool {
    exists|
        begin: Result<(), MvccError>,
        replies: Seq<Result<Option<ReleasedLock>, MvccError>>,
        stats: Statistics,
        modifies: Vec<Modify>,
    |
        {
            &&& #[trigger] release_result(
                ctx,
                keys.len(),
                ReleasedLocksView::empty(start_ts, commit_ts),
                multi,
                begin,
                replies,
                modifies,
                r,
                woken,
            )
            &&& effects.1 == effects.0 + #[trigger] in_txn(
                start_ts,
                ctx.fill_cache(),
                begin,
                release_effects(keys, how, replies),
                stats,
                taken_if(released(replies) is Ok, modifies),
            )
            &&& counters.1 == counted(counters.0, begin, stats)
        }
}

/// Runs a command that takes locks off the keys of one transaction. The
/// result reports no per-key entries if `multi` is set, and plain success
/// otherwise.
pub fn process_release<S: Snapshot>(
    snapshot: S,
    ctx: Context,
    keys: Vec<Key>,
    how: Release,
    start_ts: u64,
    commit_ts: u64,
    multi: bool,
    statistics: &mut Statistics,
    effects: &mut Effects,
) -> (r: (Result<WriteResult, Error>, Vec<ReleasedLocks>))
    ensures
        release_outcome(
            ctx,
            keys@,
            how,
            start_ts,
            commit_ts,
            multi,
            (*old(statistics), *final(statistics)),
            (old(effects)@, final(effects)@),
            r.0,
            group_views(r.1@),
        ),
{
    let ghost all = keys@;
    let ghost n = keys@.len();
    let ghost start = ReleasedLocksView::empty(start_ts, commit_ts);
    let ghost before = effects@;
    let ghost counters = *statistics;
    let rows = keys.len();
    let mut woken: Vec<ReleasedLocks> = Vec::new();
    let opened = open_txn(snapshot, start_ts, ctx.fill_cache(), effects);
    let mut txn = match opened {
        Ok(txn) => txn,
        Err(e) => {
            let r = Err(Error::Mvcc(e));
            proof {
                let none: Seq<Result<Option<ReleasedLock>, MvccError>> = Seq::empty();
                assert(release_result(ctx, n, start, multi, Err(e), none, arbitrary(), r, group_views(woken@)));
                assert(effects@ =~= before + in_txn(
                    start_ts,
                    ctx.fill_cache(),
                    Err(e),
                    release_effects(all, how, none),
                    arbitrary(),
                    taken_if(released(none) is Ok, arbitrary()),
                ));
            }
            return (r, woken);
        },
    };
    let ghost opened_at = effects@;
    let outcome = release_all(&mut txn, keys, how, start_ts, commit_ts, effects);
    let ghost replies = choose|replies: Seq<Result<Option<ReleasedLock>, MvccError>>|
        release_run(n, start, replies, outcome) && effects@ == opened_at + release_effects(all, how, replies);
    let stats = take_statistics(&mut txn, effects);
    statistics.add(&stats);
    match outcome {
        Err(e) => {
            let r = Err(e);
            proof {
                assert(release_result(ctx, n, start, multi, Ok(()), replies, arbitrary(), r, group_views(woken@)));
                assert(effects@ =~= before + in_txn(
                    start_ts,
                    ctx.fill_cache(),
                    Ok(()),
                    release_effects(all, how, replies),
                    stats,
                    taken_if(released(replies) is Ok, arbitrary()),
                ));
            }
            (r, woken)
        },
        Ok(released_locks) => {
            woken.push(released_locks);
            let modifies = into_modifies(txn, effects);
            let pr = if multi {
                ProcessResult::MultiRes { results: Vec::new() }
            } else {
                ProcessResult::Res
            };
            let r = Ok(WriteResult { ctx, to_be_write: modifies, rows, pr, lock_info: None });
            proof {
                assert(group_views(woken@) =~= seq![released_locks@]);
                assert(release_result(ctx, n, start, multi, Ok(()), replies, modifies, r, group_views(woken@)));
                assert(effects@ =~= before + in_txn(
                    start_ts,
                    ctx.fill_cache(),
                    Ok(()),
                    release_effects(all, how, replies),
                    stats,
                    taken_if(released(replies) is Ok, modifies),
                ));
            }
            (r, woken)
        },
    }
}

/// Wake-up grouping, for a command on the keys of one transaction. If the
/// command succeeds, the waiters are woken with exactly one aggregate. It
/// names the transaction and its commit timestamp, it holds the hashes of
/// exactly the locks that were set free, one for each and in the order of
/// the keys, and it is pessimistic if and only if one of those locks was.
pub proof fn lemma_wake_up_grouping(
    ctx: Context,
    n: nat,
    start_ts: u64,
    commit_ts: u64,
    multi: bool,
    replies: Seq<Result<Option<ReleasedLock>, MvccError>>,
    modifies: Vec<Modify>,
    r: Result<WriteResult, Error>,
    woken: Seq<ReleasedLocksView>,
)
    requires
        release_result(
            ctx,
            n,
            ReleasedLocksView::empty(start_ts, commit_ts),
            multi,
            Ok(()),
            replies,
            modifies,
            r,
            woken,
        ),
        r is Ok,
    ensures
        woken.len() == 1,
        woken[0].start_ts == start_ts,
        woken[0].commit_ts == commit_ts,
        released(replies) is Ok,
        woken[0].hashes == released_hashes(released(replies)->Ok_0),
        forall|h: u64|
            woken[0].hashes.contains(h) <==> exists|i: int|
                0 <= i < replies.len() && (#[trigger] replies[i]) is Ok && frees_hash(replies[i]->Ok_0, h),
        woken[0].pessimistic == any_pessimistic(released(replies)->Ok_0),
{
    let locks = released(replies)->Ok_0;
    let start = ReleasedLocksView::empty(start_ts, commit_ts);
    lemma_released(replies);
    lemma_push_all(start, locks);
    lemma_released_hashes(locks);
    assert(start.hashes + released_hashes(locks) =~= released_hashes(locks));
    assert forall|h: u64|
        woken[0].hashes.contains(h) <==> exists|i: int|
            0 <= i < replies.len() && (#[trigger] replies[i]) is Ok && frees_hash(replies[i]->Ok_0, h) by {
        if woken[0].hashes.contains(h) {
            let i = choose|i: int| 0 <= i < locks.len() && frees_hash(#[trigger] locks[i], h);
            assert(replies[i] == Ok::<Option<ReleasedLock>, MvccError>(locks[i]));
        }
        if exists|i: int| 0 <= i < replies.len() && (#[trigger] replies[i]) is Ok && frees_hash(replies[i]->Ok_0, h) {
            let i = choose|i: int|
                0 <= i < replies.len() && (#[trigger] replies[i]) is Ok && frees_hash(replies[i]->Ok_0, h);
            assert(replies[i] == Ok::<Option<ReleasedLock>, MvccError>(locks[i]));
            assert(frees_hash(locks[i], h));
        }
    }
}

/// A command that takes the locks off keys fails with the first error
/// that a key meets, and handles no key after it; if no key meets an
/// error, every key is handled.
pub proof fn lemma_release_ends_at_error(
    ctx: Context,
    n: nat,
    start: ReleasedLocksView,
    multi: bool,
    replies: Seq<Result<Option<ReleasedLock>, MvccError>>,
    modifies: Vec<Modify>,
    r: Result<WriteResult, Error>,
    woken: Seq<ReleasedLocksView>,
)
    requires
        release_result(ctx, n, start, multi, Ok(()), replies, modifies, r, woken),
    ensures
        forall|i: int| 0 <= i < replies.len() && (#[trigger] replies[i]) is Err ==> i == replies.len() - 1,
        r is Err <==> replies.len() > 0 && replies.last() is Err,
        r is Err ==> r == Err::<WriteResult, Error>(Error::Mvcc(replies.last()->Err_0)),
        r is Ok ==> replies.len() == n,
{
    lemma_released(replies);
    if replies.len() > 0 {
        let front = replies.drop_last();
        lemma_released(front);
        assert forall|i: int| 0 <= i < replies.len() && (#[trigger] replies[i]) is Err implies i == replies.len()
            - 1 by {
            if i < front.len() {
                assert(front[i] == replies[i]);
            }
        }
        assert(replies[replies.len() - 1] == replies.last());
    }
}

} // verus!
