//! Heart beat of a transaction: extends the time to live of its
//! primary lock.

use vstd::prelude::*;
use crate::effects::{into_modifies, open_txn, take_statistics, txn_heart_beat, Effect, Effects};
use crate::errors::Error;
use crate::kv::{Context, Key, Modify};
use crate::mvcc::{MvccError, MvccTxn, Snapshot, Statistics};
use crate::scheduler::{ProcessResult, WriteResult};
use crate::write::{counted, in_txn, taken_if};

verus! {

/// Outcome of a heart beat, given what the MVCC layer answered: the time
/// to live that the primary lock has now.
pub open spec fn heart_beat_result(
    ctx: Context,
    begin: Result<(), MvccError>,
    reply: Result<u64, MvccError>,
    modifies: Vec<Modify>,
    r: Result<WriteResult, Error>,
) -> bool {
    match begin {
        Err(e) => r == Err::<WriteResult, Error>(Error::Mvcc(e)),
        Ok(_) => match reply {
            Err(e) => r == Err::<WriteResult, Error>(Error::Mvcc(e)),
            Ok(lock_ttl) => r == Ok::<WriteResult, Error>(
                WriteResult {
                    ctx,
                    to_be_write: modifies,
                    rows: 1,
                    pr: ProcessResult::TxnStatus { lock_ttl, commit_ts: 0 },
                    lock_info: None,
                },
            ),
        },
    }
}

/// What a heart beat asks of the transaction: to extend the time to live
/// of the primary lock.
pub open spec fn heart_beat_effects(primary_key: Seq<u8>, advise_ttl: u64, reply: Result<u64, MvccError>) -> Seq<
    Effect,
> {
    seq![Effect::TxnHeartBeat { primary_key, advise_ttl, reply }]
}

/// What a heart beat does and yields: the outcome that
/// `heart_beat_result` gives for the answers of the MVCC layer, which are
/// those on the record of effects. The counters of the transaction are
/// added to those of the caller.
pub open spec fn heart_beat_outcome(
    ctx: Context,
    primary_key: Seq<u8>,
    start_ts: u64,
    advise_ttl: u64,
    counters: (Statistics, Statistics),
    effects: (Seq<Effect>, Seq<Effect>),
    r: Result<WriteResult, Error>,
) -> bool {
    exists|begin: Result<(), MvccError>, reply: Result<u64, MvccError>, stats: Statistics, modifies: Vec<Modify>|
        {
            &&& #[trigger] heart_beat_result(ctx, begin, reply, modifies, r)
            &&& effects.1 == effects.0 + #[trigger] in_txn(
                start_ts,
                ctx.fill_cache(),
                begin,
                heart_beat_effects(primary_key, advise_ttl, reply),
                stats,
                taken_if(reply is Ok, modifies),
            )
            &&& counters.1 == counted(counters.0, begin, stats)
        }
}

/// Extends the time to live of the primary lock of a transaction. No lock
/// is set free, so nobody is woken.
pub fn process_txn_heart_beat<S: Snapshot>(
    snapshot: S,
    ctx: Context,
    primary_key: Key,
    start_ts: u64,
    advise_ttl: u64,
    statistics: &mut Statistics,
    effects: &mut Effects,
) -> (r: Result<WriteResult, Error>)
    ensures
        heart_beat_outcome(
            ctx,
            primary_key@,
            start_ts,
            advise_ttl,
            (*old(statistics), *final(statistics)),
            (old(effects)@, final(effects)@),
            r,
        ),
        r is Ok ==> r->Ok_0.lock_info is None,
{
    let ghost before = effects@;
    let opened = open_txn(snapshot, start_ts, ctx.fill_cache(), effects);
    let mut txn = match opened {
        Ok(txn) => txn,
        Err(e) => {
            let r = Err(Error::Mvcc(e));
            proof {
                let no_reply: Result<u64, MvccError> = arbitrary();
                assert(heart_beat_result(ctx, Err(e), no_reply, arbitrary(), r));
                assert(effects@ =~= before + in_txn(
                    start_ts,
                    ctx.fill_cache(),
                    Err(e),
                    heart_beat_effects(primary_key@, advise_ttl, no_reply),
                    arbitrary(),
                    taken_if(no_reply is Ok, arbitrary()),
                ));
            }
            return r;
        },
    };
    let reply = txn_heart_beat(&mut txn, primary_key, advise_ttl, effects);
    let stats = take_statistics(&mut txn, effects);
    statistics.add(&stats);
    match reply {
        Err(e) => {
            let r = Err(Error::Mvcc(e));
            proof {
                assert(heart_beat_result(ctx, Ok(()), reply, arbitrary(), r));
                assert(effects@ =~= before + in_txn(
                    start_ts,
                    ctx.fill_cache(),
                    Ok(()),
                    heart_beat_effects(primary_key@, advise_ttl, reply),
                    stats,
                    taken_if(reply is Ok, arbitrary()),
                ));
            }
            r
        },
        Ok(lock_ttl) => {
            let modifies = into_modifies(txn, effects);
            let r = Ok(
                WriteResult {
                    ctx,
                    to_be_write: modifies,
                    rows: 1,
                    pr: ProcessResult::TxnStatus { lock_ttl, commit_ts: 0 },
                    lock_info: None,
                },
            );
            proof {
                assert(heart_beat_result(ctx, Ok(()), reply, modifies, r));
                assert(effects@ =~= before + in_txn(
                    start_ts,
                    ctx.fill_cache(),
                    Ok(()),
                    heart_beat_effects(primary_key@, advise_ttl, reply),
                    stats,
                    taken_if(reply is Ok, modifies),
                ));
            }
            r
        },
    }
}

} // verus!
