//! Prewrite: the first stage of a two-phase commit, which locks the keys
//! of a transaction and writes its tentative values.

use vstd::prelude::*;
use crate::effects::{
    into_modifies,
    open_txn,
    pessimistic_prewrite,
    prewrite,
    take_statistics,
    Effect,
    Effects,
};
use crate::errors::{is_locked_entry, Error, StorageResult};
use crate::kv::{Context, Modify};
use crate::mvcc::{Mutation, MvccError, MvccTxn, Options, Snapshot, Statistics};
use crate::scheduler::{ProcessResult, WriteResult};
use crate::write::{counted, in_txn, is_multi_res, taken_if, writes_batch, writes_nothing};
use crate::write::conflicts::{
    collect_lock,
    collect_locks,
    is_conflict,
    is_fatal,
    lemma_collect_locks,
};

verus! {

/// A run of a prewrite over `n` mutations: every mutation is answered
/// unless an error other than a lock conflict ends the run, nothing is
/// answered after such an error, and `r` holds the conflicts collected
/// from the answers, or that error.
pub open spec fn prewrite_run(
    n: nat,
    replies: Seq<Result<(), MvccError>>,
    r: Result<Vec<StorageResult<()>>, Error>,
) -> bool {
    &&& replies.len() <= n
    &&& replies.len() > 0 ==> collect_locks(replies.drop_last()) is Ok
    &&& match collect_locks(replies) {
        Ok(locks) => replies.len() == n && r is Ok && r->Ok_0@ == locks,
        Err(e) => r == Err::<Vec<StorageResult<()>>, Error>(e),
    }
}

/// What a prewrite asks of the transaction: one prewrite for each mutation
/// that it comes to, in order, on the optimistic path if
/// `options.for_update_ts` is zero, and otherwise on the pessimistic path,
/// with the flag of the mutation.
pub open spec fn prewrite_effects(
    mutations: Seq<Mutation>,
    primary: Seq<u8>,
    options: Options,
    replies: Seq<Result<(), MvccError>>,
) -> Seq<Effect> {
    Seq::new(
        replies.len(),
        |i: int|
            if options.for_update_ts == 0 {
                Effect::Prewrite { mutation: mutations[i], primary, options, reply: replies[i] }
            } else {
                Effect::PessimisticPrewrite {
                    mutation: mutations[i],
                    primary,
                    is_pessimistic_lock: options.is_pessimistic_lock@[i],
                    options,
                    reply: replies[i],
                }
            },
    )
}

/// Whether a run prewrote `mutations`: `r` is what `prewrite_run` gives
/// for the answers of the transaction, and the effects added are the
/// prewrites with those answers.
pub open spec fn prewritten(
    mutations: Seq<Mutation>,
    primary: Seq<u8>,
    options: Options,
    before: Seq<Effect>,
    after: Seq<Effect>,
    r: Result<Vec<StorageResult<()>>, Error>,
) -> bool {
    exists|replies: Seq<Result<(), MvccError>>|
        prewrite_run(mutations.len(), replies, r) && after == before + prewrite_effects(
            mutations,
            primary,
            options,
            replies,
        )
}

/// Prewrites every mutation in order, on the optimistic path if
/// `options.for_update_ts` is zero and on the pessimistic path otherwise.
/// Lock conflicts are collected, and the remaining mutations are still
/// tried, so that the caller sees all conflicts at once.
pub fn prewrite_all<T: MvccTxn>(
    txn: &mut T,
    mutations: Vec<Mutation>,
    primary: &Vec<u8>,
    options: &Options,
    effects: &mut Effects,
) -> (r: Result<Vec<StorageResult<()>>, Error>)
    requires
        options.for_update_ts != 0 ==> options.is_pessimistic_lock@.len() == mutations@.len(),
    ensures
        prewritten(mutations@, primary@, *options, old(effects)@, final(effects)@, r),
{
    let mut locks: Vec<StorageResult<()>> = Vec::new();
    let ghost mut seen: Seq<Result<(), MvccError>> = Seq::empty();
    let ghost all = mutations@;
    let ghost before = effects@;
    let len = mutations.len();
    let mut i: usize = 0;
    assert(effects@ =~= before + prewrite_effects(all, primary@, *options, seen));
    for m in it: mutations.into_iter()
        invariant
            i == it.index(),
            all == it.seq(),
            all.len() == len,
            seen.len() == i,
            collect_locks(seen) == Ok::<Seq<StorageResult<()>>, Error>(locks@),
            options.for_update_ts != 0 ==> options.is_pessimistic_lock@.len() == all.len(),
            before == old(effects)@,
            effects@ == before + prewrite_effects(all, primary@, *options, seen),
    {
        let reply = if options.for_update_ts == 0 {
            prewrite(txn, m, primary, options, effects)
        } else {
            pessimistic_prewrite(txn, m, primary, options.is_pessimistic_lock[i], options, effects)
        };
        proof {
            assert(seen.push(reply).drop_last() =~= seen);
            assert(effects@ =~= before + prewrite_effects(all, primary@, *options, seen.push(reply)));
            seen = seen.push(reply);
        }
        match collect_lock(&mut locks, reply) {
            Err(e) => {
                let r = Err(e);
                assert(prewrite_run(all.len(), seen, r));
                return r;
            },
            Ok(_) => {},
        }
        i += 1;
    }
    let r = Ok(locks);
    assert(prewrite_run(all.len(), seen, r));
    r
}

/// Outcome of a prewrite of `n` mutations, given what the MVCC layer
/// answered: `begin` when the transaction was opened, `replies` to the
/// mutations, and `modifies` when asked for the modifications.
///
/// Prewrite is all or nothing: with any lock conflict nothing is written
/// and the conflicts are reported; any other error fails the command at
/// once, so that no answer follows it.
pub open spec fn prewrite_result(
    ctx: Context,
    n: nat,
    begin: Result<(), MvccError>,
    replies: Seq<Result<(), MvccError>>,
    modifies: Vec<Modify>,
    r: Result<WriteResult, Error>,
) -> bool {
    match begin {
        Err(e) => r == Err::<WriteResult, Error>(Error::Mvcc(e)),
        Ok(_) => {
            &&& replies.len() <= n
            &&& replies.len() > 0 ==> collect_locks(replies.drop_last()) is Ok
            &&& match collect_locks(replies) {
                Err(e) => r == Err::<WriteResult, Error>(e),
                Ok(locks) => {
                    &&& replies.len() == n
                    &&& r is Ok
                    &&& is_multi_res(r->Ok_0.pr, locks)
                    &&& if locks.len() == 0 {
                        writes_batch(r->Ok_0, ctx, n, modifies)
                    } else {
                        writes_nothing(r->Ok_0, ctx) && r->Ok_0.lock_info is None
                    }
                },
            }
        },
    }
}

/// Whether a prewrite met no lock conflict and no other error.
pub open spec fn all_prewritten(replies: Seq<Result<(), MvccError>>) -> bool {
    collect_locks(replies) matches Ok(locks) && locks.len() == 0
}

/// What a prewrite does and yields: the outcome that `prewrite_result`
/// gives for the answers of the MVCC layer, which are those on the record
/// of effects. The modifications are taken only if no mutation met a
/// conflict, and the counters of the transaction are added to those of the
/// caller.
pub open spec fn prewrite_outcome(
    ctx: Context,
    mutations: Seq<Mutation>,
    primary: Seq<u8>,
    start_ts: u64,
    options: Options,
    counters: (Statistics, Statistics),
    effects: (Seq<Effect>, Seq<Effect>),
    r: Result<WriteResult, Error>,
) -> bool {
    exists|
        begin: Result<(), MvccError>,
        replies: Seq<Result<(), MvccError>>,
        stats: Statistics,
        modifies: Vec<Modify>,
    |
        {
            &&& #[trigger] prewrite_result(ctx, mutations.len(), begin, replies, modifies, r)
            &&& effects.1 == effects.0 + #[trigger] in_txn(
                start_ts,
                ctx.fill_cache(),
                begin,
                prewrite_effects(mutations, primary, options, replies),
                stats,
                taken_if(all_prewritten(replies), modifies),
            )
            &&& counters.1 == counted(counters.0, begin, stats)
        }
}

/// Runs a prewrite.
pub fn process_prewrite<S: Snapshot>(
    snapshot: S,
    ctx: Context,
    mutations: Vec<Mutation>,
    primary: Vec<u8>,
    start_ts: u64,
    options: Options,
    statistics: &mut Statistics,
    effects: &mut Effects,
) -> (r: Result<WriteResult, Error>)
    requires
        options.for_update_ts != 0 ==> options.is_pessimistic_lock@.len() == mutations@.len(),
    ensures
        prewrite_outcome(
            ctx,
            mutations@,
            primary@,
            start_ts,
            options,
            (*old(statistics), *final(statistics)),
            (old(effects)@, final(effects)@),
            r,
        ),
        r is Ok ==> r->Ok_0.lock_info is None,
{
    let ghost all = mutations@;
    let ghost n = mutations@.len();
    let ghost before = effects@;
    let rows = mutations.len();
    let opened = open_txn(snapshot, start_ts, ctx.fill_cache(), effects);
    let mut txn = match opened {
        Ok(txn) => txn,
        Err(e) => {
            let r = Err(Error::Mvcc(e));
            proof {
                let none: Seq<Result<(), MvccError>> = Seq::empty();
                assert(prewrite_result(ctx, n, Err(e), none, arbitrary(), r));
                assert(effects@ =~= before + in_txn(
                    start_ts,
                    ctx.fill_cache(),
                    Err(e),
                    prewrite_effects(all, primary@, options, none),
                    arbitrary(),
                    taken_if(all_prewritten(none), arbitrary()),
                ));
            }
            return r;
        },
    };
    let ghost opened_at = effects@;
    let collected = prewrite_all(&mut txn, mutations, &primary, &options, effects);
    let ghost replies = choose|replies: Seq<Result<(), MvccError>>|
        prewrite_run(n, replies, collected) && effects@ == opened_at + prewrite_effects(
            all,
            primary@,
            options,
            replies,
        );
    let stats = take_statistics(&mut txn, effects);
    statistics.add(&stats);
    match collected {
        Err(e) => {
            let r = Err(e);
            proof {
                assert(prewrite_result(ctx, n, Ok(()), replies, arbitrary(), r));
                assert(effects@ =~= before + in_txn(
                    start_ts,
                    ctx.fill_cache(),
                    Ok(()),
                    prewrite_effects(all, primary@, options, replies),
                    stats,
                    taken_if(all_prewritten(replies), arbitrary()),
                ));
            }
            r
        },
        Ok(locks) => {
            if locks.len() == 0 {
                let modifies = into_modifies(txn, effects);
                let r = Ok(
                    WriteResult {
                        ctx,
                        to_be_write: modifies,
                        rows,
                        pr: ProcessResult::MultiRes { results: locks },
                        lock_info: None,
                    },
                );
                proof {
                    assert(prewrite_result(ctx, n, Ok(()), replies, modifies, r));
                    assert(effects@ =~= before + in_txn(
                        start_ts,
                        ctx.fill_cache(),
                        Ok(()),
                        prewrite_effects(all, primary@, options, replies),
                        stats,
                        taken_if(all_prewritten(replies), modifies),
                    ));
                }
                r
            } else {
                // Skip the write stage: some keys are locked.
                let r = Ok(
                    WriteResult {
                        ctx,
                        to_be_write: Vec::new(),
                        rows: 0,
                        pr: ProcessResult::MultiRes { results: locks },
                        lock_info: None,
                    },
                );
                proof {
                    assert(prewrite_result(ctx, n, Ok(()), replies, arbitrary(), r));
                    assert(effects@ =~= before + in_txn(
                        start_ts,
                        ctx.fill_cache(),
                        Ok(()),
                        prewrite_effects(all, primary@, options, replies),
                        stats,
                        taken_if(all_prewritten(replies), arbitrary()),
                    ));
                }
                r
            }
        },
    }
}

/// Prewrite atomicity. If some mutation meets an error other than a lock
/// conflict, the command fails with that error, hands nothing to the
/// engine, and tries no mutation after it. Otherwise every mutation is
/// tried. If some mutation meets a lock conflict and none another error,
/// the command succeeds with no modification and zero rows, and reports
/// one entry for each conflict. If every mutation succeeds, the command
/// hands the modifications of the transaction to the engine.
pub proof fn lemma_prewrite_atomicity(
    ctx: Context,
    n: nat,
    replies: Seq<Result<(), MvccError>>,
    modifies: Vec<Modify>,
    r: Result<WriteResult, Error>,
)
    requires
        prewrite_result(ctx, n, Ok(()), replies, modifies, r),
    ensures
        (exists|i: int| 0 <= i < replies.len() && is_fatal(#[trigger] replies[i])) ==> r is Err,
        (forall|i: int| 0 <= i < replies.len() ==> !is_fatal(#[trigger] replies[i])) ==> r is Ok,
        forall|i: int| 0 <= i < replies.len() && is_fatal(#[trigger] replies[i]) ==> i == replies.len() - 1,
        r is Err ==> replies.len() > 0 && r == Err::<WriteResult, Error>(Error::Mvcc(replies.last()->Err_0)),
        r is Ok ==> replies.len() == n,
        r is Ok && (exists|i: int| 0 <= i < replies.len() && is_conflict(#[trigger] replies[i])) ==> {
            &&& r->Ok_0.to_be_write@.len() == 0
            &&& r->Ok_0.rows == 0
            &&& r->Ok_0.lock_info is None
            &&& r->Ok_0.pr is MultiRes
            &&& r->Ok_0.pr->results@.len() > 0
            &&& r->Ok_0.pr->results@ == collect_locks(replies)->Ok_0
            &&& forall|k: int|
                0 <= k < r->Ok_0.pr->results@.len() ==> is_locked_entry(#[trigger] r->Ok_0.pr->results@[k])
        },
        r is Ok && (forall|i: int| 0 <= i < replies.len() ==> (#[trigger] replies[i]) is Ok) ==> {
            &&& r->Ok_0.to_be_write == modifies
            &&& r->Ok_0.rows == n
            &&& is_multi_res(r->Ok_0.pr, Seq::empty())
        },
{
    lemma_collect_locks(replies);
    if replies.len() > 0 {
        let front = replies.drop_last();
        lemma_collect_locks(front);
        assert forall|i: int| 0 <= i < replies.len() && is_fatal(#[trigger] replies[i]) implies i == replies.len()
            - 1 by {
            if i < front.len() {
                assert(front[i] == replies[i]);
            }
        }
    }
    if r is Ok {
        let locks = collect_locks(replies)->Ok_0;
        if exists|i: int| 0 <= i < replies.len() && is_conflict(#[trigger] replies[i]) {
            let i = choose|i: int| 0 <= i < replies.len() && is_conflict(#[trigger] replies[i]);
            assert(!(replies[i] is Ok));
        }
        if forall|i: int| 0 <= i < replies.len() ==> (#[trigger] replies[i]) is Ok {
            assert(locks =~= Seq::empty());
        }
    }
}

} // verus!
