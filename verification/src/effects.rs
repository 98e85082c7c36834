//! What the executor asks of the world around it.
//!
//! The MVCC layer, the lock manager, the scheduler and the engine are
//! reached through the functions of this module, and through no other
//! code of the crate. Each of these functions asks one thing of one of
//! them and adds what it asked, with the answer, to the record of effects
//! that it is handed. The record that a function leaves behind thus tells
//! what the function did, and the contracts speak of it.
//!
//! A record is made by the caller, empty, and from then on it only grows:
//! no code of the crate makes a record of its own or puts one in the place
//! of another. What is proved of a function in this module is that the
//! record grows by the entry stated; that the entry names what the body
//! asks is read off the body, which makes one call and does nothing else.
//! Only `release` chooses among calls, and it does so through four such
//! functions, so that its choice is proved.

use vstd::prelude::*;
use crate::executor::{Engine, PendingWrite, WriteCallback};
use crate::kv::{Context, EngineError, Key, Modify, Value};
use crate::lock_manager::LockMgr;
use crate::mvcc::{
    Lock,
    LockFilter,
    Mutation,
    MvccError,
    MvccReader,
    MvccTxn,
    Options,
    ReaderOptions,
    Release,
    ReleasedLock,
    Snapshot,
    Statistics,
    Write,
};
use crate::scheduler::{Msg, MsgScheduler};

verus! {

/// Model of a `LockFilter`.
pub ghost enum FilterView {
    UpTo(u64),
    OfTransactions(Map<u64, u64>),
}

/// One thing asked of a collaborator, with the answer where there is one.
pub ghost enum Effect {
    /// A transaction was opened on the snapshot.
    OpenTxn { start_ts: u64, fill_cache: bool, reply: Result<(), MvccError> },
    Prewrite { mutation: Mutation, primary: Seq<u8>, options: Options, reply: Result<(), MvccError> },
    PessimisticPrewrite {
        mutation: Mutation,
        primary: Seq<u8>,
        is_pessimistic_lock: bool,
        options: Options,
        reply: Result<(), MvccError>,
    },
    AcquirePessimisticLock {
        key: Seq<u8>,
        primary: Seq<u8>,
        should_not_exist: bool,
        options: Options,
        reply: Result<(), MvccError>,
    },
    /// The lock was taken off a key: by a commit, a rollback, a cleanup or
    /// a pessimistic rollback.
    Release { key: Seq<u8>, how: Release, reply: Result<Option<ReleasedLock>, MvccError> },
    TxnHeartBeat { primary_key: Seq<u8>, advise_ttl: u64, reply: Result<u64, MvccError> },
    SetStartTs { start_ts: u64 },
    WriteSize { reply: usize },
    TakeStatistics { reply: Statistics },
    IntoModifies { reply: Vec<Modify> },
    /// A reader was opened on the snapshot.
    OpenReader { options: ReaderOptions },
    LoadLock { key: Seq<u8>, reply: Result<Option<Lock>, MvccError> },
    SeekWrite { key: Seq<u8>, ts: u64, reply: Result<Option<(u64, Write)>, MvccError> },
    ScanValues { key: Seq<u8>, reply: Result<Vec<(u64, Value)>, MvccError> },
    SeekTs { ts: u64, reply: Result<Option<Key>, MvccError> },
    ScanLocks {
        start: Option<Seq<u8>>,
        filter: FilterView,
        limit: usize,
        reply: Result<(Vec<(Key, Lock)>, bool), MvccError>,
    },
    ReaderStatistics { reply: Statistics },
    /// The lock manager was told to wake the waiters of a transaction.
    WakeUp { lock_ts: u64, hashes: Seq<u64>, commit_ts: u64, pessimistic: bool },
    /// A message was posted to the scheduler.
    Post { msg: Msg },
    /// A write batch was handed to the engine, with what is to be reported
    /// when it is written.
    AsyncWrite { ctx: Context, batch: Vec<Modify>, pending: PendingWrite, reply: Result<(), EngineError> },
}

/// Whether an effect stays with the MVCC layer and the lock manager: it
/// posts no message and hands no batch to the engine.
pub open spec fn inward(e: Effect) -> bool {
    !(e is Post) && !(e is AsyncWrite)
}

pub open spec fn all_inward(effects: Seq<Effect>) -> bool {
    forall|i: int| 0 <= i < effects.len() ==> inward(#[trigger] effects[i])
}

/// Whether an effect is a question to the MVCC layer.
pub open spec fn of_mvcc(e: Effect) -> bool {
    inward(e) && !(e is WakeUp)
}

pub open spec fn all_of_mvcc(effects: Seq<Effect>) -> bool {
    forall|i: int| 0 <= i < effects.len() ==> of_mvcc(#[trigger] effects[i])
}

/// Whether a record of effects grew by inward effects only.
pub open spec fn grew_inward(effects: (Seq<Effect>, Seq<Effect>)) -> bool {
    exists|added: Seq<Effect>| effects.1 == effects.0 + added && #[trigger] all_inward(added)
}

/// The record of what was asked of the collaborators, in order.
pub struct Effects {
    log: Ghost<Seq<Effect>>,
}

impl View for Effects {
    type V = Seq<Effect>;

    closed spec fn view(&self) -> Seq<Effect> {
        self.log@
    }
}

impl Effects {
    /// A record with nothing in it.
    pub fn new() -> (r: Effects)
        ensures
            r@ == Seq::<Effect>::empty(),
    {
        Effects { log: Ghost(Seq::empty()) }
    }
}

impl<'a> LockFilter<'a> {
    pub open spec fn view(&self) -> FilterView {
        match *self {
            LockFilter::UpTo(max_ts) => FilterView::UpTo(max_ts),
            LockFilter::OfTransactions(txn_status) => FilterView::OfTransactions(txn_status@),
        }
    }
}

/// Whether an answer is a success, whatever it holds.
pub open spec fn succeeded<T>(reply: Result<T, MvccError>) -> Result<(), MvccError> {
    match reply {
        Ok(_) => Ok(()),
        Err(e) => Err(e),
    }
}

/// The view of a key, if there is one.
pub open spec fn key_view(key: Option<&Key>) -> Option<Seq<u8>> {
    match key {
        Some(k) => Some(k@),
        None => None,
    }
}

/// The view of a key, if there is one.
pub open spec fn own_key_view(key: Option<Key>) -> Option<Seq<u8>> {
    match key {
        Some(k) => Some(k@),
        None => None,
    }
}

/// Opens a transaction at `start_ts` on the snapshot.
pub fn open_txn<S: Snapshot>(snapshot: S, start_ts: u64, fill_cache: bool, effects: &mut Effects) -> (reply: Result<
    S::Txn,
    MvccError,
>)
    ensures
        final(effects)@ == old(effects)@.push(Effect::OpenTxn { start_ts, fill_cache, reply: succeeded(reply) }),
{
    let reply = snapshot.txn(start_ts, fill_cache);
    proof {
        effects.log@ = effects.log@.push(Effect::OpenTxn { start_ts, fill_cache, reply: succeeded(reply) });
    }
    reply
}

/// Prewrites a mutation on the optimistic path.
pub fn prewrite<T: MvccTxn>(
    txn: &mut T,
    mutation: Mutation,
    primary: &Vec<u8>,
    options: &Options,
    effects: &mut Effects,
) -> (reply: Result<(), MvccError>)
    ensures
        final(effects)@ == old(effects)@.push(
            Effect::Prewrite { mutation, primary: primary@, options: *options, reply },
        ),
{
    let ghost asked = mutation;
    let reply = txn.prewrite(mutation, primary, options);
    proof {
        effects.log@ = effects.log@.push(
            Effect::Prewrite { mutation: asked, primary: primary@, options: *options, reply },
        );
    }
    reply
}

/// Prewrites a mutation on the pessimistic path.
pub fn pessimistic_prewrite<T: MvccTxn>(
    txn: &mut T,
    mutation: Mutation,
    primary: &Vec<u8>,
    is_pessimistic_lock: bool,
    options: &Options,
    effects: &mut Effects,
) -> (reply: Result<(), MvccError>)
    ensures
        final(effects)@ == old(effects)@.push(
            Effect::PessimisticPrewrite { mutation, primary: primary@, is_pessimistic_lock, options: *options, reply },
        ),
{
    let ghost asked = mutation;
    let reply = txn.pessimistic_prewrite(mutation, primary, is_pessimistic_lock, options);
    proof {
        effects.log@ = effects.log@.push(
            Effect::PessimisticPrewrite {
                mutation: asked,
                primary: primary@,
                is_pessimistic_lock,
                options: *options,
                reply,
            },
        );
    }
    reply
}

/// Acquires a pessimistic lock on a key.
pub fn acquire_pessimistic_lock<T: MvccTxn>(
    txn: &mut T,
    key: Key,
    primary: &Vec<u8>,
    should_not_exist: bool,
    options: &Options,
    effects: &mut Effects,
) -> (reply: Result<(), MvccError>)
    ensures
        final(effects)@ == old(effects)@.push(
            Effect::AcquirePessimisticLock { key: key@, primary: primary@, should_not_exist, options: *options, reply },
        ),
{
    let ghost asked = key@;
    let reply = txn.acquire_pessimistic_lock(key, primary, should_not_exist, options);
    proof {
        effects.log@ = effects.log@.push(
            Effect::AcquirePessimisticLock {
                key: asked,
                primary: primary@,
                should_not_exist,
                options: *options,
                reply,
            },
        );
    }
    reply
}

/// Commits a key at `commit_ts`.
pub fn commit<T: MvccTxn>(txn: &mut T, key: Key, commit_ts: u64, effects: &mut Effects) -> (reply: Result<
    Option<ReleasedLock>,
    MvccError,
>)
    ensures
        final(effects)@ == old(effects)@.push(
            Effect::Release { key: key@, how: Release::Commit { commit_ts }, reply },
        ),
{
    let ghost asked = key@;
    let reply = txn.commit(key, commit_ts);
    proof {
        effects.log@ = effects.log@.push(
            Effect::Release { key: asked, how: Release::Commit { commit_ts }, reply },
        );
    }
    reply
}

/// Rolls a key back.
pub fn rollback<T: MvccTxn>(txn: &mut T, key: Key, effects: &mut Effects) -> (reply: Result<
    Option<ReleasedLock>,
    MvccError,
>)
    ensures
        final(effects)@ == old(effects)@.push(Effect::Release { key: key@, how: Release::Rollback, reply }),
{
    let ghost asked = key@;
    let reply = txn.rollback(key);
    proof {
        effects.log@ = effects.log@.push(Effect::Release { key: asked, how: Release::Rollback, reply });
    }
    reply
}

/// Cleans a key up, as of `current_ts`.
pub fn cleanup<T: MvccTxn>(txn: &mut T, key: Key, current_ts: u64, effects: &mut Effects) -> (reply: Result<
    Option<ReleasedLock>,
    MvccError,
>)
    ensures
        final(effects)@ == old(effects)@.push(
            Effect::Release { key: key@, how: Release::Cleanup { current_ts }, reply },
        ),
{
    let ghost asked = key@;
    let reply = txn.cleanup(key, current_ts);
    proof {
        effects.log@ = effects.log@.push(
            Effect::Release { key: asked, how: Release::Cleanup { current_ts }, reply },
        );
    }
    reply
}

/// Rolls the pessimistic lock on a key back.
pub fn pessimistic_rollback<T: MvccTxn>(txn: &mut T, key: Key, for_update_ts: u64, effects: &mut Effects) -> (reply:
    Result<Option<ReleasedLock>, MvccError>)
    ensures
        final(effects)@ == old(effects)@.push(
            Effect::Release { key: key@, how: Release::PessimisticRollback { for_update_ts }, reply },
        ),
{
    let ghost asked = key@;
    let reply = txn.pessimistic_rollback(key, for_update_ts);
    proof {
        effects.log@ = effects.log@.push(
            Effect::Release { key: asked, how: Release::PessimisticRollback { for_update_ts }, reply },
        );
    }
    reply
}

/// Takes the lock off one key, in the way that `how` says.
pub fn release<T: MvccTxn>(txn: &mut T, key: Key, how: Release, effects: &mut Effects) -> (reply: Result<
    Option<ReleasedLock>,
    MvccError,
>)
    ensures
        final(effects)@ == old(effects)@.push(Effect::Release { key: key@, how, reply }),
{
    match how {
        Release::Commit { commit_ts } => commit(txn, key, commit_ts, effects),
        Release::Rollback => rollback(txn, key, effects),
        Release::Cleanup { current_ts } => cleanup(txn, key, current_ts, effects),
        Release::PessimisticRollback { for_update_ts } => pessimistic_rollback(txn, key, for_update_ts, effects),
    }
}

/// Asks for the time to live of the primary lock to be extended.
pub fn txn_heart_beat<T: MvccTxn>(txn: &mut T, primary_key: Key, advise_ttl: u64, effects: &mut Effects) -> (reply:
    Result<u64, MvccError>)
    ensures
        final(effects)@ == old(effects)@.push(Effect::TxnHeartBeat { primary_key: primary_key@, advise_ttl, reply }),
{
    let ghost asked = primary_key@;
    let reply = txn.txn_heart_beat(primary_key, advise_ttl);
    proof {
        effects.log@ = effects.log@.push(Effect::TxnHeartBeat { primary_key: asked, advise_ttl, reply });
    }
    reply
}

/// Has the transaction take on another start timestamp.
pub fn set_start_ts<T: MvccTxn>(txn: &mut T, start_ts: u64, effects: &mut Effects)
    ensures
        final(effects)@ == old(effects)@.push(Effect::SetStartTs { start_ts }),
{
    txn.set_start_ts(start_ts);
    proof {
        effects.log@ = effects.log@.push(Effect::SetStartTs { start_ts });
    }
}

/// Asks for the bytes of the modifications built so far.
pub fn write_size<T: MvccTxn>(txn: &T, effects: &mut Effects) -> (reply: usize)
    ensures
        final(effects)@ == old(effects)@.push(Effect::WriteSize { reply }),
{
    let reply = txn.write_size();
    proof {
        effects.log@ = effects.log@.push(Effect::WriteSize { reply });
    }
    reply
}

/// Takes the counters of the transaction.
pub fn take_statistics<T: MvccTxn>(txn: &mut T, effects: &mut Effects) -> (reply: Statistics)
    ensures
        final(effects)@ == old(effects)@.push(Effect::TakeStatistics { reply }),
{
    let reply = txn.take_statistics();
    proof {
        effects.log@ = effects.log@.push(Effect::TakeStatistics { reply });
    }
    reply
}

/// Takes the modifications that the transaction has built.
pub fn into_modifies<T: MvccTxn>(txn: T, effects: &mut Effects) -> (reply: Vec<Modify>)
    ensures
        final(effects)@ == old(effects)@.push(Effect::IntoModifies { reply }),
{
    let reply = txn.into_modifies();
    proof {
        effects.log@ = effects.log@.push(Effect::IntoModifies { reply });
    }
    reply
}

/// Opens a reader on the snapshot.
pub fn open_reader<S: Snapshot>(snapshot: S, options: ReaderOptions, effects: &mut Effects) -> (reader: S::Reader)
    ensures
        final(effects)@ == old(effects)@.push(Effect::OpenReader { options }),
{
    let reader = snapshot.reader(options);
    proof {
        effects.log@ = effects.log@.push(Effect::OpenReader { options });
    }
    reader
}

/// Asks for the lock of a key.
pub fn load_lock<R: MvccReader>(reader: &mut R, key: &Key, effects: &mut Effects) -> (reply: Result<
    Option<Lock>,
    MvccError,
>)
    ensures
        final(effects)@ == old(effects)@.push(Effect::LoadLock { key: key@, reply }),
{
    let reply = reader.load_lock(key);
    proof {
        effects.log@ = effects.log@.push(Effect::LoadLock { key: key@, reply });
    }
    reply
}

/// Asks for the latest write of a key committed at or before `ts`.
pub fn seek_write<R: MvccReader>(reader: &mut R, key: &Key, ts: u64, effects: &mut Effects) -> (reply: Result<
    Option<(u64, Write)>,
    MvccError,
>)
    ensures
        final(effects)@ == old(effects)@.push(Effect::SeekWrite { key: key@, ts, reply }),
{
    let reply = reader.seek_write(key, ts);
    proof {
        effects.log@ = effects.log@.push(Effect::SeekWrite { key: key@, ts, reply });
    }
    reply
}

/// Asks for the versioned values of a key.
pub fn scan_values_in_default<R: MvccReader>(reader: &mut R, key: &Key, effects: &mut Effects) -> (reply: Result<
    Vec<(u64, Value)>,
    MvccError,
>)
    ensures
        final(effects)@ == old(effects)@.push(Effect::ScanValues { key: key@, reply }),
{
    let reply = reader.scan_values_in_default(key);
    proof {
        effects.log@ = effects.log@.push(Effect::ScanValues { key: key@, reply });
    }
    reply
}

/// Asks for the first key that a transaction started at `ts` wrote.
pub fn seek_ts<R: MvccReader>(reader: &mut R, ts: u64, effects: &mut Effects) -> (reply: Result<
    Option<Key>,
    MvccError,
>)
    ensures
        final(effects)@ == old(effects)@.push(Effect::SeekTs { ts, reply }),
{
    let reply = reader.seek_ts(ts);
    proof {
        effects.log@ = effects.log@.push(Effect::SeekTs { ts, reply });
    }
    reply
}

/// Asks for up to `limit` locks from `start` on that `filter` accepts.
pub fn scan_locks<R: MvccReader>(
    reader: &mut R,
    start: Option<&Key>,
    filter: &LockFilter,
    limit: usize,
    effects: &mut Effects,
) -> (reply: Result<(Vec<(Key, Lock)>, bool), MvccError>)
    ensures
        final(effects)@ == old(effects)@.push(
            Effect::ScanLocks { start: key_view(start), filter: filter.view(), limit, reply },
        ),
{
    let reply = reader.scan_locks(start, filter, limit);
    proof {
        effects.log@ = effects.log@.push(
            Effect::ScanLocks { start: key_view(start), filter: filter.view(), limit, reply },
        );
    }
    reply
}

/// Asks for the counters of the reader.
pub fn reader_statistics<R: MvccReader>(reader: &R, effects: &mut Effects) -> (reply: Statistics)
    ensures
        final(effects)@ == old(effects)@.push(Effect::ReaderStatistics { reply }),
{
    let reply = *reader.get_statistics();
    proof {
        effects.log@ = effects.log@.push(Effect::ReaderStatistics { reply });
    }
    reply
}

/// Tells the lock manager that the transaction started at `lock_ts` has
/// set free the locks on the keys with these hashes.
pub fn wake_up<L: LockMgr>(
    lock_mgr: &L,
    lock_ts: u64,
    hashes: Vec<u64>,
    commit_ts: u64,
    is_pessimistic_txn: bool,
    effects: &mut Effects,
)
    ensures
        final(effects)@ == old(effects)@.push(
            Effect::WakeUp { lock_ts, hashes: hashes@, commit_ts, pessimistic: is_pessimistic_txn },
        ),
{
    let ghost asked = hashes@;
    lock_mgr.wake_up(lock_ts, hashes, commit_ts, is_pessimistic_txn);
    proof {
        effects.log@ = effects.log@.push(
            Effect::WakeUp { lock_ts, hashes: asked, commit_ts, pessimistic: is_pessimistic_txn },
        );
    }
}

/// Posts `msg` to the scheduler.
pub fn notify_scheduler<S: MsgScheduler>(scheduler: S, msg: Msg, effects: &mut Effects)
    ensures
        final(effects)@ == old(effects)@.push(Effect::Post { msg }),
{
    let ghost posted = msg;
    scheduler.on_msg(msg);
    proof {
        effects.log@ = effects.log@.push(Effect::Post { msg: posted });
    }
}

/// Hands a write batch to the engine.
pub fn async_write<E: Engine, S: MsgScheduler, P>(
    engine: &E,
    ctx: &Context,
    batch: Vec<Modify>,
    callback: WriteCallback<S, P>,
    effects: &mut Effects,
) -> (reply: Result<(), EngineError>)
    ensures
        final(effects)@ == old(effects)@.push(
            Effect::AsyncWrite { ctx: *ctx, batch, pending: callback.spec_pending(), reply },
        ),
{
    let ghost asked = batch;
    let ghost pending = callback.spec_pending();
    let reply = engine.async_write(ctx, batch, callback);
    proof {
        effects.log@ = effects.log@.push(Effect::AsyncWrite { ctx: *ctx, batch: asked, pending, reply });
    }
    reply
}

} // verus!
