//! The read processor: point queries on the versions of a key, lock
//! scans, and the scanning half of lock resolution.

use vstd::prelude::*;
use crate::command::{Command, LockInfo, MvccInfo};
use crate::effects::{
    all_inward,
    grew_inward,
    load_lock,
    open_reader,
    own_key_view,
    reader_statistics,
    scan_locks,
    scan_values_in_default,
    seek_ts,
    seek_write,
    Effect,
    Effects,
    FilterView,
};
use crate::errors::Error;
use crate::kv::{Context, Key, ScanMode, Value};
use crate::mvcc::{
    Lock,
    LockFilter,
    MvccError,
    MvccReader,
    ReaderOptions,
    Snapshot,
    Statistics,
    Write,
};
use crate::scheduler::ProcessResult;
use std::collections::HashMap;

verus! {

/// Number of locks that one scan of a lock resolution asks for. Resolving
/// a key writes some 100 to 150 bytes, so a batch of this many keys stays
/// around the byte budget of a write batch.
pub const RESOLVE_LOCK_BATCH_SIZE: usize = 256;

/// The lock of a key, its writes with their commit timestamps, and its
/// values with their timestamps.
pub type MultipleReturnValue = (Option<Lock>, Vec<(u64, Write)>, Vec<(u64, Value)>);

/// How far the walk back through the writes of a key has come.
pub ghost enum Walk {
    /// The next write is sought at or before `ts`.
    Seeking { ts: u64, writes: Seq<(u64, Write)> },
    Done { writes: Seq<(u64, Write)> },
    Failed { err: MvccError },
}

/// One step of the walk: a write committed at `commit_ts` is taken up and
/// the walk goes on below `commit_ts`; the walk ends when no write is
/// found, when the write found is the earliest there can be, or when the
/// reader hands out a write from after `ts`, which it was not asked for.
pub open spec fn walk_step(ts: u64, writes: Seq<(u64, Write)>, reply: Result<Option<(u64, Write)>, MvccError>) -> Walk {
    match reply {
        Err(err) => Walk::Failed { err },
        Ok(None) => Walk::Done { writes },
        Ok(Some(found)) => if found.0 > ts {
            Walk::Done { writes }
        } else if found.0 == 0 {
            Walk::Done { writes: writes.push(found) }
        } else {
            Walk::Seeking { ts: (found.0 - 1) as u64, writes: writes.push(found) }
        },
    }
}

/// The walk from `ts` back, one step for each answer of the reader.
pub open spec fn walk(ts: u64, replies: Seq<Result<Option<(u64, Write)>, MvccError>>) -> Walk
    decreases replies.len(),
{
    if replies.len() == 0 {
        Walk::Seeking { ts, writes: Seq::empty() }
    } else {
        match walk(ts, replies.drop_last()) {
            Walk::Seeking { ts, writes } => walk_step(ts, writes, replies.last()),
            stopped => stopped,
        }
    }
}

/// Whether the commit timestamps go down strictly and none is after `ts`.
pub open spec fn descending_from(writes: Seq<(u64, Write)>, ts: u64) -> bool {
    &&& forall|i: int| 0 <= i < writes.len() ==> (#[trigger] writes[i]).0 <= ts
    &&& forall|i: int, j: int| 0 <= i < j < writes.len() ==> (#[trigger] writes[i]).0 > (#[trigger] writes[j]).0
}

/// The writes that a walk has taken up are in strictly descending order
/// of commit timestamp, none after the timestamp the walk set out from,
/// and all after the timestamp at which the walk seeks next.
pub proof fn lemma_walk(ts: u64, replies: Seq<Result<Option<(u64, Write)>, MvccError>>)
    ensures
        walk(ts, replies) matches Walk::Seeking { ts: next, writes } ==> descending_from(writes, ts) && next <= ts
            && forall|i: int| 0 <= i < writes.len() ==> (#[trigger] writes[i]).0 > next,
        walk(ts, replies) matches Walk::Done { writes } ==> descending_from(writes, ts),
    decreases replies.len(),
{
    if replies.len() > 0 {
        lemma_walk(ts, replies.drop_last());
    }
}

/// Whether an answer is a write committed at or before `upper` and not
/// the earliest there can be, so that the walk takes it up and goes on.
pub open spec fn is_hit(reply: Result<Option<(u64, Write)>, MvccError>, upper: u64) -> bool {
    match reply {
        Ok(Some(found)) => 0 < found.0 <= upper,
        _ => false,
    }
}

/// As long as the walk goes on, every answer was a write that the walk
/// took up, and the next write is sought just below the last one found.
pub proof fn lemma_seeking(ts: u64, replies: Seq<Result<Option<(u64, Write)>, MvccError>>)
    requires
        walk(ts, replies) is Seeking,
    ensures
        walk(ts, replies)->Seeking_writes.len() == replies.len(),
        forall|i: int|
            0 <= i < replies.len() ==> {
                &&& is_hit(#[trigger] replies[i], seek_at(ts, replies.take(i)))
                &&& walk(ts, replies)->Seeking_writes[i] == replies[i]->Ok_0->Some_0
                &&& seek_at(ts, replies.take(i + 1)) == replies[i]->Ok_0->Some_0.0 - 1
            },
        seek_at(ts, replies.take(0)) == ts,
    decreases replies.len(),
{
    assert(replies.take(0) =~= Seq::empty());
    if replies.len() > 0 {
        let front = replies.drop_last();
        lemma_seeking(ts, front);
        assert(replies.take(replies.len() as int) =~= replies);
        assert(replies.take(replies.len() - 1) =~= front);
        assert forall|i: int| 0 <= i < replies.len() implies {
            &&& is_hit(#[trigger] replies[i], seek_at(ts, replies.take(i)))
            &&& walk(ts, replies)->Seeking_writes[i] == replies[i]->Ok_0->Some_0
            &&& seek_at(ts, replies.take(i + 1)) == replies[i]->Ok_0->Some_0.0 - 1
        } by {
            if i < front.len() {
                assert(front[i] == replies[i]);
                assert(replies.take(i) =~= front.take(i));
                assert(replies.take(i + 1) =~= front.take(i + 1));
            }
        }
    }
}

/// What a query of the versions of a key yields, given what the reader
/// answered: `load` when asked for the lock, `seeks` when asked for the
/// writes, `scan` when asked for the values. The walk is at its end, or
/// has failed, with the last answer and not before: nothing is sought
/// after the answer that ends it.
pub open spec fn mvcc_info_result(
    ts: u64,
    load: Result<Option<Lock>, MvccError>,
    seeks: Seq<Result<Option<(u64, Write)>, MvccError>>,
    scan: Result<Vec<(u64, Value)>, MvccError>,
    r: Result<MultipleReturnValue, Error>,
) -> bool {
    match load {
        Err(e) => r == Err::<MultipleReturnValue, Error>(Error::Mvcc(e)),
        Ok(lock) => {
            &&& seeks.len() > 0 ==> walk(ts, seeks.drop_last()) is Seeking
            &&& match walk(ts, seeks) {
                Walk::Seeking { .. } => false,
                Walk::Failed { err } => r == Err::<MultipleReturnValue, Error>(Error::Mvcc(err)),
                Walk::Done { writes } => match scan {
                    Err(e) => r == Err::<MultipleReturnValue, Error>(Error::Mvcc(e)),
                    Ok(values) => {
                        &&& r is Ok
                        &&& r->Ok_0.0 == lock
                        &&& r->Ok_0.1@ == writes
                        &&& r->Ok_0.2 == values
                    },
                },
            }
        },
    }
}

/// The timestamp at or before which the walk seeks after these answers.
pub open spec fn seek_at(ts: u64, replies: Seq<Result<Option<(u64, Write)>, MvccError>>) -> u64 {
    match walk(ts, replies) {
        Walk::Seeking { ts, .. } => ts,
        _ => 0,
    }
}

/// What the walk asks of the reader: each time the latest write at or
/// before the timestamp that the answers so far have led to.
pub open spec fn seek_effects(key: Seq<u8>, ts: u64, seeks: Seq<Result<Option<(u64, Write)>, MvccError>>) -> Seq<
    Effect,
> {
    Seq::new(seeks.len(), |i: int| Effect::SeekWrite { key, ts: seek_at(ts, seeks.take(i)), reply: seeks[i] })
}

/// What a query of the versions of a key asks of the reader: the lock of
/// the key; then, if that succeeded, the writes of the key, each below the
/// one before; then, if the walk came to its end, the values of the key.
pub open spec fn mvcc_info_effects(
    key: Seq<u8>,
    ts: u64,
    load: Result<Option<Lock>, MvccError>,
    seeks: Seq<Result<Option<(u64, Write)>, MvccError>>,
    scan: Result<Vec<(u64, Value)>, MvccError>,
) -> Seq<Effect> {
    seq![Effect::LoadLock { key, reply: load }] + if load is Ok {
        seek_effects(key, ts, seeks) + if walk(ts, seeks) is Done {
            seq![Effect::ScanValues { key, reply: scan }]
        } else {
            Seq::empty()
        }
    } else {
        Seq::empty()
    }
}

/// What a query of the versions of a key does and yields: the outcome
/// that `mvcc_info_result` gives for the answers of the reader, which are
/// those on the record of effects.
pub open spec fn mvcc_info_outcome(
    key: Seq<u8>,
    ts: u64,
    effects: (Seq<Effect>, Seq<Effect>),
    r: Result<MultipleReturnValue, Error>,
) -> bool {
    exists|
        load: Result<Option<Lock>, MvccError>,
        seeks: Seq<Result<Option<(u64, Write)>, MvccError>>,
        scan: Result<Vec<(u64, Value)>, MvccError>,
    |
        {
            &&& #[trigger] mvcc_info_result(ts, load, seeks, scan, r)
            &&& effects.1 == effects.0 + mvcc_info_effects(key, ts, load, seeks, scan)
        }
}

/// Gathers what the store holds of `key`: its lock, its writes committed
/// at or before `ts` from the latest back, and its versioned values.
pub fn find_mvcc_infos_by_key<R: MvccReader>(reader: &mut R, key: &Key, ts: u64, effects: &mut Effects) -> (r:
    Result<MultipleReturnValue, Error>)
    ensures
        mvcc_info_outcome(key@, ts, (old(effects)@, final(effects)@), r),
        r is Ok ==> descending_from(r->Ok_0.1@, ts),
{
    let ghost before = effects@;
    let load = load_lock(reader, key, effects);
    let lock = match load {
        Ok(lock) => lock,
        Err(e) => {
            let r = Err(Error::Mvcc(e));
            proof {
                assert(mvcc_info_result(ts, load, Seq::empty(), arbitrary(), r));
                assert(effects@ =~= before + mvcc_info_effects(key@, ts, load, Seq::empty(), arbitrary()));
            }
            return r;
        },
    };
    let mut writes: Vec<(u64, Write)> = Vec::new();
    let ghost mut seen: Seq<Result<Option<(u64, Write)>, MvccError>> = Seq::empty();
    let ghost loaded = effects@;
    let mut upper = ts;
    let mut seeking = true;
    assert(effects@ =~= loaded + seek_effects(key@, ts, seen));
    while seeking
        invariant
            load == Ok::<Option<Lock>, MvccError>(lock),
            loaded == before.push(Effect::LoadLock { key: key@, reply: load }),
            seeking ==> walk(ts, seen) == (Walk::Seeking { ts: upper, writes: writes@ }),
            !seeking ==> walk(ts, seen) == (Walk::Done { writes: writes@ }),
            seen.len() > 0 ==> walk(ts, seen.drop_last()) is Seeking,
            before == old(effects)@,
            effects@ == loaded + seek_effects(key@, ts, seen),
        decreases
                if seeking {
                    upper + 1
                } else {
                    0
                },
    {
        let reply = seek_write(reader, key, upper, effects);
        proof {
            let next = seen.push(reply);
            assert(next.drop_last() =~= seen);
            assert(next.take(seen.len() as int) =~= seen);
            assert forall|i: int| 0 <= i < seen.len() implies #[trigger] next.take(i) == seen.take(i) by {
                assert(next.take(i) =~= seen.take(i));
            }
            assert(effects@ =~= loaded + seek_effects(key@, ts, next));
            seen = next;
        }
        match reply {
            Err(e) => {
                let r = Err(Error::Mvcc(e));
                proof {
                    assert(mvcc_info_result(ts, load, seen, arbitrary(), r));
                    assert(effects@ =~= before + mvcc_info_effects(key@, ts, load, seen, arbitrary()));
                }
                return r;
            },
            Ok(None) => {
                seeking = false;
            },
            Ok(Some(found)) => {
                let commit_ts = found.0;
                if commit_ts > upper {
                    seeking = false;
                } else {
                    writes.push(found);
                    if commit_ts == 0 {
                        seeking = false;
                    } else {
                        upper = commit_ts - 1;
                    }
                }
            },
        }
    }
    let scan = scan_values_in_default(reader, key, effects);
    proof {
        lemma_walk(ts, seen);
        assert(effects@ =~= before + mvcc_info_effects(key@, ts, load, seen, scan));
    }
    match scan {
        Err(e) => {
            let r = Err(Error::Mvcc(e));
            assert(mvcc_info_result(ts, load, seen, scan, r));
            r
        },
        Ok(values) => {
            let r = Ok((lock, writes, values));
            assert(mvcc_info_result(ts, load, seen, scan, r));
            r
        },
    }
}

/// What is reported of a lock that a scan found on `key`.
pub open spec fn spec_lock_info(pair: (Key, Lock)) -> LockInfo {
    LockInfo { primary_lock: pair.1.primary, lock_version: pair.1.ts, key: pair.0 }
}

/// Reports the locks that a scan found, in the order of the scan.
pub fn lock_infos(kv_pairs: Vec<(Key, Lock)>) -> (locks: Vec<LockInfo>)
    ensures
        locks@ == kv_pairs@.map_values(|pair: (Key, Lock)| spec_lock_info(pair)),
{
    let mut locks: Vec<LockInfo> = Vec::with_capacity(kv_pairs.len());
    let ghost pairs = kv_pairs@;
    for pair in it: kv_pairs.into_iter()
        invariant
            pairs == it.seq(),
            locks@ == pairs.take(it.index()).map_values(|pair: (Key, Lock)| spec_lock_info(pair)),
    {
        let ghost at = locks@.len() as int;
        let (key, lock) = pair;
        locks.push(LockInfo { primary_lock: lock.primary, lock_version: lock.ts, key });
        assert(locks@ =~= pairs.take(at + 1).map_values(|pair: (Key, Lock)| spec_lock_info(pair)));
    }
    assert(pairs.take(pairs.len() as int) =~= pairs);
    locks
}

/// Whether `pr` asks the scheduler to resolve the scanned locks and, with
/// `more` set, to scan on from the last of them afterwards.
pub open spec fn is_resolve_batch(
    pr: ProcessResult,
    ctx: Context,
    txn_status: HashMap<u64, u64>,
    kv_pairs: Vec<(Key, Lock)>,
    more: bool,
) -> bool {
    match pr {
        ProcessResult::NextCommand { cmd: Command::ResolveLock { ctx: c, txn_status: t, scan_key, key_locks } } => {
            &&& c == ctx
            &&& t == txn_status
            &&& key_locks == kv_pairs
            &&& if more {
                scan_key is Some && scan_key->Some_0@ == kv_pairs@.last().0@
            } else {
                scan_key is None
            }
        },
        _ => false,
    }
}

/// What a lock resolution does with the locks that its scan found: with
/// none it is done; otherwise the locks go to the write processor, and the
/// next scan starts from the last of them if and only if the scan reported
/// that more may follow.
pub fn resolve_lock_scanned(
    ctx: Context,
    txn_status: HashMap<u64, u64>,
    kv_pairs: Vec<(Key, Lock)>,
    has_remain: bool,
) -> (pr: ProcessResult)
    ensures
        kv_pairs@.len() == 0 ==> pr == ProcessResult::Res,
        kv_pairs@.len() > 0 ==> is_resolve_batch(pr, ctx, txn_status, kv_pairs, has_remain),
{
    if kv_pairs.len() == 0 {
        ProcessResult::Res
    } else {
        let next_scan_key = if has_remain {
            // There might be more locks.
            Some(kv_pairs[kv_pairs.len() - 1].0.clone())
        } else {
            // All locks are scanned.
            None
        };
        ProcessResult::NextCommand {
            cmd: Command::ResolveLock { ctx, txn_status, scan_key: next_scan_key, key_locks: kv_pairs },
        }
    }
}

/// How a reader is opened for a request: scanning forward, filling the
/// cache unless the request forbids it, at the isolation level of the
/// request.
pub open spec fn spec_reader_options(ctx: Context) -> ReaderOptions {
    ReaderOptions {
        scan_mode: Some(ScanMode::Forward),
        fill_cache: !ctx.not_fill_cache,
        isolation_level: ctx.isolation_level,
    }
}

pub fn reader_options(ctx: &Context) -> (r: ReaderOptions)
    ensures
        r == spec_reader_options(*ctx),
{
    ReaderOptions {
        scan_mode: Some(ScanMode::Forward),
        fill_cache: ctx.fill_cache(),
        isolation_level: ctx.isolation_level,
    }
}

/// Whether the read processor handles the command.
pub open spec fn spec_supports_read(cmd: &Command) -> bool {
    match *cmd {
        Command::MvccByKey { .. } => true,
        Command::MvccByStartTs { .. } => true,
        Command::ScanLock { .. } => true,
        Command::ResolveLock { .. } => true,
        _ => false,
    }
}

#[verifier::when_used_as_spec(spec_supports_read)]
pub fn supports_read(cmd: &Command) -> (r: bool)
    ensures
        r == spec_supports_read(cmd),
{
    match cmd {
        Command::MvccByKey { .. } => true,
        Command::MvccByStartTs { .. } => true,
        Command::ScanLock { .. } => true,
        Command::ResolveLock { .. } => true,
        _ => false,
    }
}

/// What was found of a key, as it is reported.
pub open spec fn spec_mvcc_info(found: MultipleReturnValue) -> MvccInfo {
    MvccInfo { lock: found.0, writes: found.1, values: found.2 }
}

/// What the reader answered to a read command: `seek` when asked for the
/// key of a transaction, `load`, `seeks` and `values` when asked for what
/// the store holds of a key, `scan` when asked for locks, and `stats` when
/// asked for its counters.
pub ghost struct ReaderAnswers {
    pub seek: Result<Option<Key>, MvccError>,
    pub load: Result<Option<Lock>, MvccError>,
    pub seeks: Seq<Result<Option<(u64, Write)>, MvccError>>,
    pub values: Result<Vec<(u64, Value)>, MvccError>,
    pub scan: Result<(Vec<(Key, Lock)>, bool), MvccError>,
    pub stats: Statistics,
}

/// Whether `r` reports what was found of a key, or the failure to find it.
pub open spec fn reports_mvcc_info(a: ReaderAnswers, r: Result<MultipleReturnValue, Error>) -> bool {
    mvcc_info_result(u64::MAX, a.load, a.seeks, a.values, r)
}

/// What a read command yields, given what the reader answered.
pub open spec fn read_result(cmd: Command, a: ReaderAnswers, r: Result<ProcessResult, Error>) -> bool {
    match cmd {
        Command::MvccByKey { .. } => exists|found: Result<MultipleReturnValue, Error>|
            #[trigger] reports_mvcc_info(a, found) && match found {
                Err(e) => r == Err::<ProcessResult, Error>(e),
                Ok(info) => r == Ok::<ProcessResult, Error>(ProcessResult::MvccKey { mvcc: spec_mvcc_info(info) }),
            },
        Command::MvccByStartTs { .. } => match a.seek {
            Err(e) => r == Err::<ProcessResult, Error>(Error::Mvcc(e)),
            Ok(None) => r == Ok::<ProcessResult, Error>(ProcessResult::MvccStartTs { mvcc: None }),
            Ok(Some(key)) => exists|found: Result<MultipleReturnValue, Error>|
                #[trigger] reports_mvcc_info(a, found) && match found {
                    Err(e) => r == Err::<ProcessResult, Error>(e),
                    Ok(info) => r == Ok::<ProcessResult, Error>(
                        ProcessResult::MvccStartTs { mvcc: Some((key, spec_mvcc_info(info))) },
                    ),
                },
        },
        Command::ScanLock { .. } => match a.scan {
            Err(e) => r == Err::<ProcessResult, Error>(Error::Mvcc(e)),
            Ok(found) => {
                &&& r is Ok
                &&& r->Ok_0 is Locks
                &&& r->Ok_0->locks@ == found.0@.map_values(|pair: (Key, Lock)| spec_lock_info(pair))
            },
        },
        Command::ResolveLock { ctx, txn_status, .. } => match a.scan {
            Err(e) => r == Err::<ProcessResult, Error>(Error::Mvcc(e)),
            Ok(found) => {
                &&& r is Ok
                &&& if found.0@.len() == 0 {
                    r->Ok_0 == ProcessResult::Res
                } else {
                    is_resolve_batch(r->Ok_0, ctx, txn_status, found.0, found.1)
                }
            },
        },
        _ => true,
    }
}

/// What a read command asks of the reader between opening it and taking
/// its counters.
pub open spec fn read_work(cmd: Command, a: ReaderAnswers) -> Seq<Effect> {
    match cmd {
        Command::MvccByKey { key, .. } => mvcc_info_effects(key@, u64::MAX, a.load, a.seeks, a.values),
        Command::MvccByStartTs { start_ts, .. } => seq![Effect::SeekTs { ts: start_ts, reply: a.seek }] + match a.seek {
            Ok(Some(key)) => mvcc_info_effects(key@, u64::MAX, a.load, a.seeks, a.values),
            _ => Seq::empty(),
        },
        Command::ScanLock { max_ts, start_key, limit, .. } => seq![
            Effect::ScanLocks {
                start: own_key_view(start_key),
                filter: FilterView::UpTo(max_ts),
                limit,
                reply: a.scan,
            },
        ],
        Command::ResolveLock { txn_status, scan_key, .. } => seq![
            Effect::ScanLocks {
                start: own_key_view(scan_key),
                filter: FilterView::OfTransactions(txn_status@),
                limit: RESOLVE_LOCK_BATCH_SIZE,
                reply: a.scan,
            },
        ],
        _ => Seq::empty(),
    }
}

/// What a read command asks of the MVCC layer: it opens a reader for the
/// request, does its work, and takes the counters of the reader.
pub open spec fn read_effects(cmd: Command, a: ReaderAnswers) -> Seq<Effect> {
    seq![Effect::OpenReader { options: spec_reader_options(cmd.spec_context()) }] + read_work(cmd, a) + seq![
        Effect::ReaderStatistics { reply: a.stats },
    ]
}

/// What a read command does and yields: the outcome that `read_result`
/// gives for the answers of the reader, which are those on the record of
/// effects. The counters of the reader are added to those of the caller,
/// whether the command succeeds or fails.
pub open spec fn read_outcome(
    cmd: Command,
    counters: (Statistics, Statistics),
    effects: (Seq<Effect>, Seq<Effect>),
    r: Result<ProcessResult, Error>,
) -> bool {
    exists|a: ReaderAnswers|
        {
            &&& #[trigger] read_result(cmd, a, r)
            &&& effects.1 == effects.0 + read_effects(cmd, a)
            &&& counters.1 == counters.0.plus(a.stats)
        }
}

/// Runs a read command on the snapshot. The counters of the reader are
/// folded into `statistics`, whether the command succeeds or fails.
pub fn process_read_impl<S: Snapshot>(
    cmd: Command,
    snapshot: S,
    statistics: &mut Statistics,
    effects: &mut Effects,
) -> (r: Result<ProcessResult, Error>)
    requires
        spec_supports_read(&cmd),
    ensures
        read_outcome(cmd, (*old(statistics), *final(statistics)), (old(effects)@, final(effects)@), r),
{
    let ghost before = effects@;
    match cmd {
        Command::MvccByKey { ctx, key } => {
            let mut reader = open_reader(snapshot, reader_options(&ctx), effects);
            let ghost opened = effects@;
            let found = find_mvcc_infos_by_key(&mut reader, &key, u64::MAX, effects);
            let ghost found_at = effects@;
            let stats = reader_statistics(&reader, effects);
            statistics.add(&stats);
            let r = match found {
                Ok((lock, writes, values)) => Ok(ProcessResult::MvccKey { mvcc: MvccInfo { lock, writes, values } }),
                Err(e) => Err(e),
            };
            proof {
                let (load, seeks, values) = choose|
                    load: Result<Option<Lock>, MvccError>,
                    seeks: Seq<Result<Option<(u64, Write)>, MvccError>>,
                    values: Result<Vec<(u64, Value)>, MvccError>,
                |
                    {
                        &&& #[trigger] mvcc_info_result(u64::MAX, load, seeks, values, found)
                        &&& found_at == opened + mvcc_info_effects(key@, u64::MAX, load, seeks, values)
                    };
                let a = ReaderAnswers { seek: arbitrary(), load, seeks, values, scan: arbitrary(), stats };
                assert(reports_mvcc_info(a, found));
                assert(read_result(cmd, a, r));
                assert(effects@ =~= before + read_effects(cmd, a));
            }
            r
        },
        Command::MvccByStartTs { ctx, start_ts } => {
            let mut reader = open_reader(snapshot, reader_options(&ctx), effects);
            let seek = seek_ts(&mut reader, start_ts, effects);
            match seek {
                Err(e) => {
                    let stats = reader_statistics(&reader, effects);
                    statistics.add(&stats);
                    let r = Err(Error::Mvcc(e));
                    proof {
                        let a = ReaderAnswers {
                            seek,
                            load: arbitrary(),
                            seeks: arbitrary(),
                            values: arbitrary(),
                            scan: arbitrary(),
                            stats,
                        };
                        assert(read_result(cmd, a, r));
                        assert(effects@ =~= before + read_effects(cmd, a));
                    }
                    r
                },
                Ok(None) => {
                    let stats = reader_statistics(&reader, effects);
                    statistics.add(&stats);
                    let r = Ok(ProcessResult::MvccStartTs { mvcc: None });
                    proof {
                        let a = ReaderAnswers {
                            seek,
                            load: arbitrary(),
                            seeks: arbitrary(),
                            values: arbitrary(),
                            scan: arbitrary(),
                            stats,
                        };
                        assert(read_result(cmd, a, r));
                        assert(effects@ =~= before + read_effects(cmd, a));
                    }
                    r
                },
                Ok(Some(key)) => {
                    let ghost sought = effects@;
                    let found = find_mvcc_infos_by_key(&mut reader, &key, u64::MAX, effects);
                    let ghost found_at = effects@;
                    let stats = reader_statistics(&reader, effects);
                    statistics.add(&stats);
                    let r = match found {
                        Ok((lock, writes, values)) => Ok(
                            ProcessResult::MvccStartTs { mvcc: Some((key, MvccInfo { lock, writes, values })) },
                        ),
                        Err(e) => Err(e),
                    };
                    proof {
                        let (load, seeks, values) = choose|
                            load: Result<Option<Lock>, MvccError>,
                            seeks: Seq<Result<Option<(u64, Write)>, MvccError>>,
                            values: Result<Vec<(u64, Value)>, MvccError>,
                        |
                            {
                                &&& #[trigger] mvcc_info_result(u64::MAX, load, seeks, values, found)
                                &&& found_at == sought + mvcc_info_effects(
                                    key@,
                                    u64::MAX,
                                    load,
                                    seeks,
                                    values,
                                )
                            };
                        let a = ReaderAnswers { seek, load, seeks, values, scan: arbitrary(), stats };
                        assert(reports_mvcc_info(a, found));
                        assert(read_result(cmd, a, r));
                        assert(effects@ =~= before + read_effects(cmd, a));
                    }
                    r
                },
            }
        },
        // Scans the locks taken at or before `max_ts`.
        Command::ScanLock { ctx, max_ts, start_key, limit } => {
            let mut reader = open_reader(snapshot, reader_options(&ctx), effects);
            let scan = scan_locks(&mut reader, start_key.as_ref(), &LockFilter::UpTo(max_ts), limit, effects);
            let stats = reader_statistics(&reader, effects);
            statistics.add(&stats);
            let ghost a = ReaderAnswers {
                seek: arbitrary(),
                load: arbitrary(),
                seeks: arbitrary(),
                values: arbitrary(),
                scan,
                stats,
            };
            assert(effects@ =~= before + read_effects(cmd, a));
            match scan {
                Err(e) => {
                    let r = Err(Error::Mvcc(e));
                    assert(read_result(cmd, a, r));
                    r
                },
                Ok((kv_pairs, _)) => {
                    let r = Ok(ProcessResult::Locks { locks: lock_infos(kv_pairs) });
                    assert(read_result(cmd, a, r));
                    r
                },
            }
        },
        Command::ResolveLock { ctx, txn_status, scan_key, key_locks } => {
            let mut reader = open_reader(snapshot, reader_options(&ctx), effects);
            let scan = scan_locks(
                &mut reader,
                scan_key.as_ref(),
                &LockFilter::OfTransactions(&txn_status),
                RESOLVE_LOCK_BATCH_SIZE,
                effects,
            );
            let stats = reader_statistics(&reader, effects);
            statistics.add(&stats);
            let ghost a = ReaderAnswers {
                seek: arbitrary(),
                load: arbitrary(),
                seeks: arbitrary(),
                values: arbitrary(),
                scan,
                stats,
            };
            assert(effects@ =~= before + read_effects(cmd, a));
            match scan {
                Err(e) => {
                    let r = Err(Error::Mvcc(e));
                    assert(read_result(cmd, a, r));
                    r
                },
                Ok((kv_pairs, has_remain)) => {
                    let r = Ok(resolve_lock_scanned(ctx, txn_status, kv_pairs, has_remain));
                    assert(read_result(cmd, a, r));
                    r
                },
            }
        },
        _ => unreached(),
    }
}

/// Processing a read command stays with the MVCC layer: it posts no
/// message to the scheduler and hands no batch to the engine.
pub proof fn lemma_read_inward(
    cmd: Command,
    counters: (Statistics, Statistics),
    effects: (Seq<Effect>, Seq<Effect>),
    r: Result<ProcessResult, Error>,
)
    requires
        read_outcome(cmd, counters, effects, r),
    ensures
        grew_inward(effects),
{
    let a = choose|a: ReaderAnswers|
        {
            &&& #[trigger] read_result(cmd, a, r)
            &&& effects.1 == effects.0 + read_effects(cmd, a)
            &&& counters.1 == counters.0.plus(a.stats)
        };
    assert(all_inward(read_work(cmd, a)));
    assert(all_inward(read_effects(cmd, a)));
}

/// The walk through the writes of a key seeks once for each write that it
/// takes up and goes on from, each time just below the write before, and
/// ends with its last seek. If that seek finds nothing, as it does with a
/// reader that keeps its word and a store without a write at timestamp
/// zero, the walk has made exactly one seek more than it found writes.
pub proof fn lemma_walk_seeks(
    ts: u64,
    load: Result<Option<Lock>, MvccError>,
    seeks: Seq<Result<Option<(u64, Write)>, MvccError>>,
    scan: Result<Vec<(u64, Value)>, MvccError>,
    r: Result<MultipleReturnValue, Error>,
)
    requires
        load is Ok,
        mvcc_info_result(ts, load, seeks, scan, r),
    ensures
        seeks.len() >= 1,
        forall|i: int|
            0 <= i < seeks.len() - 1 ==> {
                &&& is_hit(#[trigger] seeks[i], seek_at(ts, seeks.take(i)))
                &&& seek_at(ts, seeks.take(i + 1)) == seeks[i]->Ok_0->Some_0.0 - 1
            },
        seek_at(ts, seeks.take(0)) == ts,
        seeks.last() is Err ==> r == Err::<MultipleReturnValue, Error>(Error::Mvcc(seeks.last()->Err_0)),
        r is Ok && seeks.last() == Ok::<Option<(u64, Write)>, MvccError>(None) ==> seeks.len() == r->Ok_0.1@.len() + 1
            && forall|i: int| 0 <= i < seeks.len() - 1 ==> r->Ok_0.1@[i] == (#[trigger] seeks[i])->Ok_0->Some_0,
{
    assert(seeks.take(0) =~= Seq::empty());
    let front = seeks.drop_last();
    lemma_seeking(ts, front);
    assert forall|i: int| 0 <= i < seeks.len() - 1 implies {
        &&& is_hit(#[trigger] seeks[i], seek_at(ts, seeks.take(i)))
        &&& seek_at(ts, seeks.take(i + 1)) == seeks[i]->Ok_0->Some_0.0 - 1
    } by {
        assert(front[i] == seeks[i]);
        assert(seeks.take(i) =~= front.take(i));
        assert(seeks.take(i + 1) =~= front.take(i + 1));
    }
    if r is Ok && seeks.last() == Ok::<Option<(u64, Write)>, MvccError>(None) {
        assert forall|i: int| 0 <= i < seeks.len() - 1 implies r->Ok_0.1@[i] == (#[trigger] seeks[i])->Ok_0->Some_0 by {
            assert(front[i] == seeks[i]);
        }
    }
}

} // verus!
