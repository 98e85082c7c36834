//! Whole commands run through the executor, against a small store in
//! memory that stands for the MVCC layer, the engine, the scheduler and
//! the lock manager.

use std::collections::{BTreeMap, HashMap};
use std::sync::{Arc, Mutex};

use txn_executor::command::Command;
use txn_executor::effects::Effects;
use txn_executor::errors::{Error, StorageError};
use txn_executor::executor::{runnable, Engine, Executor, Job, Task, WriteCallback};
use txn_executor::kv::{CbContext, Cf, Context, EngineError, Key, Modify, Value};
use txn_executor::lock_manager::{Lock as WaitLock, LockMgr};
use txn_executor::mvcc::{
    Lock, LockFilter, LockType, Mutation, MvccError, MvccReader, MvccTxn, Options, ReaderOptions, ReleasedLock,
    Snapshot, Statistics, Write, MAX_TXN_WRITE_SIZE,
};
use txn_executor::read::RESOLVE_LOCK_BATCH_SIZE;
use txn_executor::scheduler::{Msg, MsgScheduler, ProcessResult};

fn key_hash(key: &[u8]) -> u64 {
    let mut h: u64 = 0xcbf29ce484222325;
    for b in key {
        h ^= *b as u64;
        h = h.wrapping_mul(0x100000001b3);
    }
    h
}

fn encode_lock(lock: &Lock) -> Vec<u8> {
    let mut v = Vec::new();
    v.extend_from_slice(&lock.ts.to_be_bytes());
    v.extend_from_slice(&lock.ttl.to_be_bytes());
    v.push(if lock.lock_type == LockType::Pessimistic { 1 } else { 0 });
    v.extend_from_slice(&lock.primary);
    v
}

fn decode_lock(bytes: &[u8]) -> Lock {
    let mut ts = [0u8; 8];
    ts.copy_from_slice(&bytes[0..8]);
    let mut ttl = [0u8; 8];
    ttl.copy_from_slice(&bytes[8..16]);
    Lock {
        lock_type: if bytes[16] == 1 { LockType::Pessimistic } else { LockType::Put },
        primary: bytes[17..].to_vec(),
        ts: u64::from_be_bytes(ts),
        ttl: u64::from_be_bytes(ttl),
        short_value: None,
        for_update_ts: 0,
    }
}

#[derive(Clone, Default)]
struct Store {
    locks: BTreeMap<Vec<u8>, Lock>,
    writes: BTreeMap<Vec<u8>, Vec<(u64, Write)>>,
    values: BTreeMap<Vec<u8>, Vec<(u64, Value)>>,
}

impl Store {
    fn lock(&mut self, key: &[u8], ts: u64, ttl: u64, lock_type: LockType) {
        self.locks.insert(
            key.to_vec(),
            Lock { lock_type, primary: key.to_vec(), ts, ttl, short_value: None, for_update_ts: 0 },
        );
    }

    fn apply(&mut self, batch: &[Modify]) {
        for m in batch {
            match m {
                Modify::Put(Cf::Lock, key, value) => {
                    self.locks.insert(key.clone(), decode_lock(value));
                }
                Modify::Delete(Cf::Lock, key) => {
                    self.locks.remove(key);
                }
                _ => {}
            }
        }
    }
}

#[derive(Clone)]
struct MemSnapshot {
    store: Store,
    /// Bytes that resolving one key adds to the write batch.
    resolve_cost: usize,
}

struct MemTxn {
    store: Store,
    start_ts: u64,
    modifies: Vec<Modify>,
    write_size: usize,
    resolve_cost: usize,
    statistics: Statistics,
}

fn zero_statistics() -> Statistics {
    Statistics::new()
}

impl MemTxn {
    fn locked_by_other(&self, key: &[u8]) -> Option<MvccError> {
        match self.store.locks.get(key) {
            Some(lock) if lock.ts != self.start_ts => Some(MvccError::KeyIsLocked {
                key: key.to_vec(),
                primary: lock.primary.clone(),
                ts: lock.ts,
                ttl: lock.ttl,
            }),
            _ => None,
        }
    }

    fn put_lock(&mut self, key: Vec<u8>, primary: &[u8], ttl: u64, lock_type: LockType) {
        let lock =
            Lock { lock_type, primary: primary.to_vec(), ts: self.start_ts, ttl, short_value: None, for_update_ts: 0 };
        self.write_size += key.len() + 17 + primary.len();
        self.modifies.push(Modify::Put(Cf::Lock, key.clone(), encode_lock(&lock)));
        self.store.locks.insert(key, lock);
    }

    fn release(&mut self, key: Key, commit: Option<u64>) -> Result<Option<ReleasedLock>, MvccError> {
        self.statistics.lock.get += 1;
        match self.store.locks.get(&key) {
            Some(lock) if lock.ts == self.start_ts => {
                let released =
                    ReleasedLock { hash: key_hash(&key), pessimistic: lock.lock_type == LockType::Pessimistic };
                if let Some(commit_ts) = commit {
                    self.modifies.push(Modify::Put(Cf::Write, key.clone(), commit_ts.to_be_bytes().to_vec()));
                }
                self.modifies.push(Modify::Delete(Cf::Lock, key.clone()));
                self.write_size += self.resolve_cost;
                self.store.locks.remove(&key);
                Ok(Some(released))
            }
            _ => match commit {
                Some(commit_ts) => {
                    Err(MvccError::TxnLockNotFound { start_ts: self.start_ts, commit_ts, key })
                }
                None => Ok(None),
            },
        }
    }
}

fn mutation_key(m: &Mutation) -> Vec<u8> {
    match m {
        Mutation::Put(k, _) => k.clone(),
        Mutation::Delete(k) => k.clone(),
        Mutation::Lock(k) => k.clone(),
        Mutation::Insert(k, _) => k.clone(),
    }
}

impl MvccTxn for MemTxn {
    fn prewrite(&mut self, mutation: Mutation, primary: &Vec<u8>, options: &Options) -> Result<(), MvccError> {
        let key = mutation_key(&mutation);
        self.statistics.lock.get += 1;
        if let Some(e) = self.locked_by_other(&key) {
            return Err(e);
        }
        if let Mutation::Insert(..) = mutation {
            if self.store.writes.contains_key(&key) {
                return Err(MvccError::AlreadyExist { key });
            }
        }
        self.put_lock(key, primary, options.lock_ttl, LockType::Put);
        Ok(())
    }

    fn pessimistic_prewrite(
        &mut self,
        mutation: Mutation,
        primary: &Vec<u8>,
        is_pessimistic_lock: bool,
        options: &Options,
    ) -> Result<(), MvccError> {
        let key = mutation_key(&mutation);
        if let Some(e) = self.locked_by_other(&key) {
            return Err(e);
        }
        if is_pessimistic_lock && !self.store.locks.contains_key(&key) {
            return Err(MvccError::Other { message: "pessimistic lock not found".to_string() });
        }
        self.put_lock(key, primary, options.lock_ttl, LockType::Put);
        Ok(())
    }

    fn acquire_pessimistic_lock(
        &mut self,
        key: Key,
        primary: &Vec<u8>,
        should_not_exist: bool,
        options: &Options,
    ) -> Result<(), MvccError> {
        if let Some(e) = self.locked_by_other(&key) {
            return Err(e);
        }
        if should_not_exist && self.store.writes.contains_key(&key) {
            return Err(MvccError::AlreadyExist { key });
        }
        self.put_lock(key, primary, options.lock_ttl, LockType::Pessimistic);
        Ok(())
    }

    fn commit(&mut self, key: Key, commit_ts: u64) -> Result<Option<ReleasedLock>, MvccError> {
        self.release(key, Some(commit_ts))
    }

    fn rollback(&mut self, key: Key) -> Result<Option<ReleasedLock>, MvccError> {
        self.release(key, None)
    }

    fn cleanup(&mut self, key: Key, _current_ts: u64) -> Result<Option<ReleasedLock>, MvccError> {
        self.release(key, None)
    }

    fn pessimistic_rollback(&mut self, key: Key, _for_update_ts: u64) -> Result<Option<ReleasedLock>, MvccError> {
        match self.store.locks.get(&key) {
            Some(lock) if lock.ts == self.start_ts && lock.lock_type == LockType::Pessimistic => {
                self.release(key, None)
            }
            _ => Ok(None),
        }
    }

    fn txn_heart_beat(&mut self, primary_key: Key, advise_ttl: u64) -> Result<u64, MvccError> {
        match self.store.locks.get(&primary_key).cloned() {
            Some(lock) if lock.ts == self.start_ts => {
                if advise_ttl > lock.ttl {
                    let primary = lock.primary.clone();
                    self.put_lock(primary_key, &primary, advise_ttl, lock.lock_type);
                    Ok(advise_ttl)
                } else {
                    Ok(lock.ttl)
                }
            }
            _ => Err(MvccError::TxnLockNotFound { start_ts: self.start_ts, commit_ts: 0, key: primary_key }),
        }
    }

    fn set_start_ts(&mut self, start_ts: u64) {
        self.start_ts = start_ts;
    }

    fn write_size(&self) -> usize {
        self.write_size
    }

    fn take_statistics(&mut self) -> Statistics {
        let taken = self.statistics;
        self.statistics = zero_statistics();
        taken
    }

    fn into_modifies(self) -> Vec<Modify> {
        self.modifies
    }
}

struct MemReader {
    store: Store,
    statistics: Statistics,
}

impl MvccReader for MemReader {
    fn load_lock(&mut self, key: &Key) -> Result<Option<Lock>, MvccError> {
        self.statistics.lock.get += 1;
        Ok(self.store.locks.get(key).cloned())
    }

    fn seek_write(&mut self, key: &Key, ts: u64) -> Result<Option<(u64, Write)>, MvccError> {
        self.statistics.write.seek += 1;
        let found = self.store.writes.get(key).and_then(|writes| {
            writes.iter().filter(|(commit_ts, _)| *commit_ts <= ts).max_by_key(|(commit_ts, _)| *commit_ts).cloned()
        });
        Ok(found)
    }

    fn scan_values_in_default(&mut self, key: &Key) -> Result<Vec<(u64, Value)>, MvccError> {
        Ok(self.store.values.get(key).cloned().unwrap_or_default())
    }

    fn seek_ts(&mut self, ts: u64) -> Result<Option<Key>, MvccError> {
        for (key, writes) in &self.store.writes {
            if writes.iter().any(|(_, w)| w.start_ts == ts) {
                return Ok(Some(key.clone()));
            }
        }
        Ok(None)
    }

    fn scan_locks(
        &mut self,
        start: Option<&Key>,
        filter: &LockFilter,
        limit: usize,
    ) -> Result<(Vec<(Key, Lock)>, bool), MvccError> {
        let mut found = Vec::new();
        for (key, lock) in &self.store.locks {
            if let Some(start) = start {
                if key < start {
                    continue;
                }
            }
            self.statistics.lock.next += 1;
            if filter.accepts(lock) {
                found.push((key.clone(), lock.clone()));
                if limit > 0 && found.len() == limit {
                    return Ok((found, true));
                }
            }
        }
        Ok((found, false))
    }

    fn get_statistics(&self) -> &Statistics {
        &self.statistics
    }
}

impl Snapshot for MemSnapshot {
    type Txn = MemTxn;
    type Reader = MemReader;

    fn txn(self, start_ts: u64, _fill_cache: bool) -> Result<MemTxn, MvccError> {
        Ok(MemTxn {
            store: self.store,
            start_ts,
            modifies: Vec::new(),
            write_size: 0,
            resolve_cost: self.resolve_cost,
            statistics: zero_statistics(),
        })
    }

    fn reader(self, _options: ReaderOptions) -> MemReader {
        MemReader { store: self.store, statistics: zero_statistics() }
    }
}

#[derive(Clone, Default)]
struct Inbox {
    msgs: Arc<Mutex<Vec<Msg>>>,
}

impl MsgScheduler for Inbox {
    fn on_msg(&self, task: Msg) {
        self.msgs.lock().unwrap().push(task);
    }
}

impl Inbox {
    fn take(&self) -> Vec<Msg> {
        std::mem::take(&mut *self.msgs.lock().unwrap())
    }
}

#[derive(Clone, Debug, PartialEq)]
struct WakeUp {
    lock_ts: u64,
    hashes: Vec<u64>,
    commit_ts: u64,
    pessimistic: bool,
}

#[derive(Clone, Default)]
struct Waiters {
    calls: Arc<Mutex<Vec<WakeUp>>>,
}

impl LockMgr for Waiters {
    fn wake_up(&self, lock_ts: u64, hashes: Vec<u64>, commit_ts: u64, is_pessimistic_txn: bool) {
        self.calls.lock().unwrap().push(WakeUp { lock_ts, hashes, commit_ts, pessimistic: is_pessimistic_txn });
    }
}

impl Waiters {
    fn take(&self) -> Vec<WakeUp> {
        std::mem::take(&mut *self.calls.lock().unwrap())
    }
}

/// The pool of the tests runs nothing by itself: the tests run each job
/// where they stand.
#[derive(Clone, Default)]
struct NoPool;

#[derive(Clone, Copy, PartialEq)]
enum Mood {
    Writes,
    Refuses,
    FailsLater,
}

#[derive(Clone)]
struct MemEngine {
    store: Arc<Mutex<Store>>,
    batches: Arc<Mutex<Vec<Vec<Modify>>>>,
    mood: Mood,
    resolve_cost: usize,
}

impl MemEngine {
    fn new(store: Store) -> MemEngine {
        MemEngine {
            store: Arc::new(Mutex::new(store)),
            batches: Arc::new(Mutex::new(Vec::new())),
            mood: Mood::Writes,
            resolve_cost: 100,
        }
    }

    fn snapshot(&self) -> MemSnapshot {
        MemSnapshot { store: self.store.lock().unwrap().clone(), resolve_cost: self.resolve_cost }
    }

    fn batches(&self) -> Vec<Vec<Modify>> {
        self.batches.lock().unwrap().clone()
    }
}

impl Engine for MemEngine {
    type Snap = MemSnapshot;

    fn async_write<S: MsgScheduler, P>(
        &self,
        _ctx: &Context,
        batch: Vec<Modify>,
        callback: WriteCallback<S, P>,
    ) -> Result<(), EngineError> {
        match self.mood {
            Mood::Refuses => Err(EngineError::EmptyRequest),
            Mood::FailsLater => {
                callback.complete(Err(EngineError::Timeout), &mut Effects::new());
                Ok(())
            }
            Mood::Writes => {
                // The callback knows what it will report, and for how many keys.
                assert!(callback.pending().rows >= 1 || batch.is_empty());
                assert!(!callback.pending().tag.is_empty());
                let _pool: &P = callback.pool();
                self.store.lock().unwrap().apply(&batch);
                self.batches.lock().unwrap().push(batch);
                callback.complete(Ok(()), &mut Effects::new());
                Ok(())
            }
        }
    }
}

struct Bench {
    engine: MemEngine,
    inbox: Inbox,
    waiters: Waiters,
    next_cid: u64,
}

impl Bench {
    fn new(store: Store) -> Bench {
        Bench { engine: MemEngine::new(store), inbox: Inbox::default(), waiters: Waiters::default(), next_cid: 1 }
    }

    /// Runs one command to its message, as the dispatcher and a worker
    /// would between them.
    fn run(&mut self, cmd: Command) -> Msg {
        let cid = self.next_cid;
        self.next_cid += 1;
        self.run_as(cid, cmd, Ok(self.engine.snapshot()))
    }

    fn run_as(&mut self, cid: u64, cmd: Command, snapshot: Result<MemSnapshot, EngineError>) -> Msg {
        let executor: Executor<MemEngine, Inbox, Waiters, NoPool> =
            Executor::new(self.inbox.clone(), NoPool, Some(self.waiters.clone()));
        let task = Task::new(cid, cmd);
        assert!(snapshot.is_err() || runnable(task.cmd(), executor.has_lock_mgr()));
        let (_pool, job) = executor.execute(CbContext { term: None }, snapshot, task);
        // Nothing is posted before the job runs.
        assert!(self.inbox.msgs.lock().unwrap().is_empty());
        job.run(&self.engine, &mut Effects::new());
        let mut msgs = self.inbox.take();
        assert_eq!(msgs.len(), 1, "one message for each execution");
        let msg = msgs.pop().unwrap();
        assert_eq!(msg.cid(), cid);
        msg
    }
}

fn ctx() -> Context {
    Context::new(1)
}

fn options() -> Options {
    Options {
        lock_ttl: 1000,
        skip_constraint_check: false,
        for_update_ts: 0,
        is_pessimistic_lock: Vec::new(),
        is_first_lock: false,
        wait_timeout: 0,
    }
}

fn locked(key: &[u8], ts: u64, ttl: u64) -> Result<(), StorageError> {
    Err(StorageError::Txn(Error::Mvcc(MvccError::KeyIsLocked {
        key: key.to_vec(),
        primary: key.to_vec(),
        ts,
        ttl,
    })))
}

#[test]
fn optimistic_prewrite_clean() {
    let mut bench = Bench::new(Store::default());
    let msg = bench.run(Command::Prewrite {
        ctx: ctx(),
        mutations: vec![
            Mutation::Put(b"k1".to_vec(), b"v1".to_vec()),
            Mutation::Put(b"k2".to_vec(), b"v2".to_vec()),
        ],
        primary: b"k1".to_vec(),
        start_ts: 100,
        options: options(),
    });
    assert_eq!(
        msg,
        Msg::WriteFinished { cid: 1, pr: ProcessResult::MultiRes { results: vec![] }, result: Ok(()), tag: "prewrite" }
    );
    let batches = bench.engine.batches();
    assert_eq!(batches.len(), 1);
    assert_eq!(batches[0].len(), 2);
    for (m, key) in batches[0].iter().zip([b"k1", b"k2"]) {
        match m {
            Modify::Put(Cf::Lock, k, v) => {
                assert_eq!(k, &key.to_vec());
                assert_eq!(decode_lock(v).ts, 100);
                assert_eq!(decode_lock(v).primary, b"k1".to_vec());
            }
            other => panic!("unexpected modification {:?}", other),
        }
    }
    assert!(bench.waiters.take().is_empty());
}

#[test]
fn prewrite_with_one_conflict() {
    let mut store = Store::default();
    store.lock(b"k2", 90, 10, LockType::Put);
    let mut bench = Bench::new(store);
    let msg = bench.run(Command::Prewrite {
        ctx: ctx(),
        mutations: vec![
            Mutation::Put(b"k1".to_vec(), b"v1".to_vec()),
            Mutation::Put(b"k2".to_vec(), b"v2".to_vec()),
        ],
        primary: b"k1".to_vec(),
        start_ts: 100,
        options: options(),
    });
    // Only the conflicts are reported: the mutation that went through
    // leaves no entry.
    assert_eq!(
        msg,
        Msg::WriteFinished {
            cid: 1,
            pr: ProcessResult::MultiRes { results: vec![locked(b"k2", 90, 10)] },
            result: Ok(()),
            tag: "prewrite",
        }
    );
    // The engine is not called, and nothing of the prewrite is kept.
    assert!(bench.engine.batches().is_empty());
    assert!(!bench.engine.store.lock().unwrap().locks.contains_key(&b"k1".to_vec()));
}

#[test]
fn prewrite_reports_every_conflict() {
    let mut store = Store::default();
    store.lock(b"k1", 80, 10, LockType::Put);
    store.lock(b"k3", 90, 20, LockType::Put);
    let mut bench = Bench::new(store);
    let msg = bench.run(Command::Prewrite {
        ctx: ctx(),
        mutations: vec![
            Mutation::Put(b"k1".to_vec(), b"v1".to_vec()),
            Mutation::Put(b"k2".to_vec(), b"v2".to_vec()),
            Mutation::Put(b"k3".to_vec(), b"v3".to_vec()),
        ],
        primary: b"k1".to_vec(),
        start_ts: 100,
        options: options(),
    });
    assert_eq!(
        msg,
        Msg::WriteFinished {
            cid: 1,
            pr: ProcessResult::MultiRes { results: vec![locked(b"k1", 80, 10), locked(b"k3", 90, 20)] },
            result: Ok(()),
            tag: "prewrite",
        }
    );
    assert!(bench.engine.batches().is_empty());
}

#[test]
fn prewrite_fails_on_another_error() {
    let mut store = Store::default();
    store.lock(b"k1", 80, 10, LockType::Put);
    store.writes.insert(b"k2".to_vec(), vec![]);
    let mut bench = Bench::new(store);
    let msg = bench.run(Command::Prewrite {
        ctx: ctx(),
        mutations: vec![
            Mutation::Put(b"k1".to_vec(), b"v1".to_vec()),
            Mutation::Insert(b"k2".to_vec(), b"v2".to_vec()),
            Mutation::Put(b"k3".to_vec(), b"v3".to_vec()),
        ],
        primary: b"k1".to_vec(),
        start_ts: 100,
        options: options(),
    });
    assert_eq!(
        msg,
        Msg::FinishedWithErr {
            cid: 1,
            err: Error::Mvcc(MvccError::AlreadyExist { key: b"k2".to_vec() }),
            tag: "prewrite",
        }
    );
    assert!(bench.engine.batches().is_empty());
}

#[test]
fn pessimistic_prewrite_takes_one_flag_for_each_mutation() {
    let mut store = Store::default();
    store.lock(b"k1", 100, 10, LockType::Pessimistic);
    let mut bench = Bench::new(store);
    let mut opts = options();
    opts.for_update_ts = 100;
    opts.is_pessimistic_lock = vec![true, false];
    let msg = bench.run(Command::Prewrite {
        ctx: ctx(),
        mutations: vec![
            Mutation::Put(b"k1".to_vec(), b"v1".to_vec()),
            Mutation::Put(b"k2".to_vec(), b"v2".to_vec()),
        ],
        primary: b"k1".to_vec(),
        start_ts: 100,
        options: opts.clone(),
    });
    assert_eq!(
        msg,
        Msg::WriteFinished { cid: 1, pr: ProcessResult::MultiRes { results: vec![] }, result: Ok(()), tag: "prewrite" }
    );
    assert_eq!(bench.engine.batches()[0].len(), 2);

    // A flag list of another length makes the command one that cannot be run.
    opts.is_pessimistic_lock = vec![true];
    let short = Command::Prewrite {
        ctx: ctx(),
        mutations: vec![
            Mutation::Put(b"k1".to_vec(), b"v1".to_vec()),
            Mutation::Put(b"k2".to_vec(), b"v2".to_vec()),
        ],
        primary: b"k1".to_vec(),
        start_ts: 100,
        options: opts,
    };
    assert!(!runnable(&short, true));
}

#[test]
fn commit_with_invalid_ts() {
    let mut store = Store::default();
    store.lock(b"k1", 100, 10, LockType::Put);
    let mut bench = Bench::new(store);
    let msg = bench.run(Command::Commit { ctx: ctx(), keys: vec![b"k1".to_vec()], lock_ts: 100, commit_ts: 100 });
    assert_eq!(
        msg,
        Msg::FinishedWithErr { cid: 1, err: Error::InvalidTxnTso { start_ts: 100, commit_ts: 100 }, tag: "commit" }
    );
    assert!(bench.engine.batches().is_empty());
    assert!(bench.waiters.take().is_empty());
    // The lock is still there.
    assert!(bench.engine.store.lock().unwrap().locks.contains_key(&b"k1".to_vec()));

    let msg = bench.run(Command::Commit { ctx: ctx(), keys: vec![b"k1".to_vec()], lock_ts: 100, commit_ts: 99 });
    assert_eq!(
        msg,
        Msg::FinishedWithErr { cid: 2, err: Error::InvalidTxnTso { start_ts: 100, commit_ts: 99 }, tag: "commit" }
    );
}

#[test]
fn commit_wakes_the_waiters_once() {
    let mut store = Store::default();
    store.lock(b"k1", 100, 10, LockType::Put);
    store.lock(b"k2", 100, 10, LockType::Pessimistic);
    store.lock(b"k3", 100, 10, LockType::Put);
    let mut bench = Bench::new(store);
    let msg = bench.run(Command::Commit {
        ctx: ctx(),
        keys: vec![b"k1".to_vec(), b"k2".to_vec(), b"k3".to_vec()],
        lock_ts: 100,
        commit_ts: 101,
    });
    assert_eq!(msg, Msg::WriteFinished { cid: 1, pr: ProcessResult::Res, result: Ok(()), tag: "commit" });
    assert_eq!(
        bench.waiters.take(),
        vec![WakeUp {
            lock_ts: 100,
            hashes: vec![key_hash(b"k1"), key_hash(b"k2"), key_hash(b"k3")],
            commit_ts: 101,
            pessimistic: true,
        }]
    );
    assert!(bench.engine.store.lock().unwrap().locks.is_empty());
}

#[test]
fn failed_commit_wakes_nobody() {
    let mut store = Store::default();
    store.lock(b"k1", 100, 10, LockType::Put);
    let mut bench = Bench::new(store);
    let msg = bench.run(Command::Commit {
        ctx: ctx(),
        keys: vec![b"k1".to_vec(), b"k2".to_vec()],
        lock_ts: 100,
        commit_ts: 101,
    });
    assert_eq!(
        msg,
        Msg::FinishedWithErr {
            cid: 1,
            err: Error::Mvcc(MvccError::TxnLockNotFound { start_ts: 100, commit_ts: 101, key: b"k2".to_vec() }),
            tag: "commit",
        }
    );
    assert!(bench.waiters.take().is_empty());
    assert!(bench.engine.batches().is_empty());
}

#[test]
fn rollback_and_cleanup_wake_with_commit_ts_zero() {
    let mut store = Store::default();
    store.lock(b"k1", 100, 10, LockType::Put);
    store.lock(b"k2", 200, 10, LockType::Pessimistic);
    let mut bench = Bench::new(store);
    let msg =
        bench.run(Command::Rollback { ctx: ctx(), keys: vec![b"k0".to_vec(), b"k1".to_vec()], start_ts: 100 });
    assert_eq!(msg, Msg::WriteFinished { cid: 1, pr: ProcessResult::Res, result: Ok(()), tag: "rollback" });
    assert_eq!(
        bench.waiters.take(),
        vec![WakeUp { lock_ts: 100, hashes: vec![key_hash(b"k1")], commit_ts: 0, pessimistic: false }]
    );

    let msg = bench.run(Command::Cleanup { ctx: ctx(), key: b"k2".to_vec(), start_ts: 200, current_ts: 300 });
    assert_eq!(msg, Msg::WriteFinished { cid: 2, pr: ProcessResult::Res, result: Ok(()), tag: "cleanup" });
    assert_eq!(
        bench.waiters.take(),
        vec![WakeUp { lock_ts: 200, hashes: vec![key_hash(b"k2")], commit_ts: 0, pessimistic: true }]
    );
}

#[test]
fn rollback_that_frees_nothing_still_wakes_once() {
    let mut bench = Bench::new(Store::default());
    let msg = bench.run(Command::Rollback { ctx: ctx(), keys: vec![b"k1".to_vec()], start_ts: 100 });
    // Nothing to persist: the engine is not called.
    assert_eq!(msg, Msg::WriteFinished { cid: 1, pr: ProcessResult::Res, result: Ok(()), tag: "rollback" });
    assert!(bench.engine.batches().is_empty());
    assert_eq!(
        bench.waiters.take(),
        vec![WakeUp { lock_ts: 100, hashes: vec![], commit_ts: 0, pessimistic: false }]
    );
}

#[test]
fn pessimistic_rollback_reports_no_entries() {
    let mut store = Store::default();
    store.lock(b"k1", 100, 10, LockType::Pessimistic);
    store.lock(b"k2", 100, 10, LockType::Put);
    let mut bench = Bench::new(store);
    let cmd = Command::PessimisticRollback {
        ctx: ctx(),
        keys: vec![b"k1".to_vec(), b"k2".to_vec()],
        start_ts: 100,
        for_update_ts: 100,
    };
    // Without a lock manager the command cannot be run.
    assert!(!runnable(&cmd, false));
    let msg = bench.run(cmd);
    assert_eq!(
        msg,
        Msg::WriteFinished {
            cid: 1,
            pr: ProcessResult::MultiRes { results: vec![] },
            result: Ok(()),
            tag: "pessimistic_rollback",
        }
    );
    assert_eq!(
        bench.waiters.take(),
        vec![WakeUp { lock_ts: 100, hashes: vec![key_hash(b"k1")], commit_ts: 0, pessimistic: true }]
    );
}

#[test]
fn pessimistic_acquire_hits_lock() {
    let mut store = Store::default();
    store.lock(b"k1", 150, 10, LockType::Pessimistic);
    let mut bench = Bench::new(store);
    let mut opts = options();
    opts.for_update_ts = 200;
    opts.is_first_lock = true;
    opts.wait_timeout = 1000;
    let msg = bench.run(Command::AcquirePessimisticLock {
        ctx: ctx(),
        keys: vec![(b"k1".to_vec(), false), (b"k2".to_vec(), false)],
        primary: b"k1".to_vec(),
        start_ts: 200,
        options: opts,
    });
    assert_eq!(
        msg,
        Msg::WaitForLock {
            cid: 1,
            start_ts: 200,
            pr: ProcessResult::MultiRes { results: vec![locked(b"k1", 150, 10)] },
            lock: WaitLock { ts: 150, key: b"k1".to_vec() },
            is_first_lock: true,
            wait_timeout: 1000,
        }
    );
    assert!(!msg.is_terminal());
    assert!(bench.engine.batches().is_empty());
}

#[test]
fn pessimistic_acquire_stops_at_the_first_lock() {
    let mut store = Store::default();
    store.lock(b"k2", 150, 10, LockType::Pessimistic);
    store.lock(b"k3", 160, 10, LockType::Pessimistic);
    let mut bench = Bench::new(store);
    let mut opts = options();
    opts.for_update_ts = 200;
    opts.wait_timeout = -1;
    let msg = bench.run(Command::AcquirePessimisticLock {
        ctx: ctx(),
        keys: vec![(b"k1".to_vec(), false), (b"k2".to_vec(), false), (b"k3".to_vec(), false)],
        primary: b"k1".to_vec(),
        start_ts: 200,
        options: opts,
    });
    assert_eq!(
        msg,
        Msg::WaitForLock {
            cid: 1,
            start_ts: 200,
            pr: ProcessResult::MultiRes { results: vec![locked(b"k2", 150, 10)] },
            lock: WaitLock { ts: 150, key: b"k2".to_vec() },
            is_first_lock: false,
            wait_timeout: -1,
        }
    );
    // The lock taken on k1 before the conflict is not persisted.
    assert!(bench.engine.batches().is_empty());
}

#[test]
fn pessimistic_acquire_clean() {
    let mut bench = Bench::new(Store::default());
    let mut opts = options();
    opts.for_update_ts = 200;
    let msg = bench.run(Command::AcquirePessimisticLock {
        ctx: ctx(),
        keys: vec![(b"k1".to_vec(), false), (b"k2".to_vec(), true)],
        primary: b"k1".to_vec(),
        start_ts: 200,
        options: opts,
    });
    assert_eq!(
        msg,
        Msg::WriteFinished {
            cid: 1,
            pr: ProcessResult::MultiRes { results: vec![] },
            result: Ok(()),
            tag: "acquire_pessimistic_lock",
        }
    );
    assert_eq!(bench.engine.batches()[0].len(), 2);
}

#[test]
fn heartbeat() {
    let mut store = Store::default();
    store.lock(b"k1", 300, 1000, LockType::Put);
    let mut bench = Bench::new(store);
    let msg = bench.run(Command::TxnHeartBeat {
        ctx: ctx(),
        primary_key: b"k1".to_vec(),
        start_ts: 300,
        advise_ttl: 3000,
    });
    assert_eq!(
        msg,
        Msg::WriteFinished {
            cid: 1,
            pr: ProcessResult::TxnStatus { lock_ttl: 3000, commit_ts: 0 },
            result: Ok(()),
            tag: "txn_heart_beat",
        }
    );
    let batches = bench.engine.batches();
    assert_eq!(batches.len(), 1);
    assert_eq!(batches[0].len(), 1);
    match &batches[0][0] {
        Modify::Put(Cf::Lock, k, v) => {
            assert_eq!(k, &b"k1".to_vec());
            assert_eq!(decode_lock(v).ts, 300);
            assert_eq!(decode_lock(v).ttl, 3000);
        }
        other => panic!("unexpected modification {:?}", other),
    }
    // No lock is set free, so nobody is woken.
    assert!(bench.waiters.take().is_empty());
}

#[test]
fn heartbeat_that_changes_nothing_calls_no_engine() {
    let mut store = Store::default();
    store.lock(b"k1", 300, 5000, LockType::Put);
    let mut bench = Bench::new(store);
    let msg = bench.run(Command::TxnHeartBeat {
        ctx: ctx(),
        primary_key: b"k1".to_vec(),
        start_ts: 300,
        advise_ttl: 3000,
    });
    assert_eq!(
        msg,
        Msg::WriteFinished {
            cid: 1,
            pr: ProcessResult::TxnStatus { lock_ttl: 5000, commit_ts: 0 },
            result: Ok(()),
            tag: "txn_heart_beat",
        }
    );
    assert!(bench.engine.batches().is_empty());
}

#[test]
fn pause_writes_nothing() {
    let mut bench = Bench::new(Store::default());
    let cmd = Command::Pause { ctx: ctx(), duration: 25 };
    assert_eq!(cmd.pause_duration(), Some(25));
    let msg = bench.run(cmd);
    assert_eq!(msg, Msg::WriteFinished { cid: 1, pr: ProcessResult::Res, result: Ok(()), tag: "pause" });
    assert!(bench.engine.batches().is_empty());
}

#[test]
fn job_tells_how_long_to_hold_the_worker() {
    let engine = MemEngine::new(Store::default());
    let executor: Executor<MemEngine, Inbox, Waiters, NoPool> = Executor::new(Inbox::default(), NoPool, None);
    let task = Task::new(1, Command::Pause { ctx: ctx(), duration: 40 });
    let (_, job) = executor.execute(CbContext { term: None }, Ok(engine.snapshot()), task);
    assert_eq!(job.pause_duration(), Some(40));

    let executor: Executor<MemEngine, Inbox, Waiters, NoPool> = Executor::new(Inbox::default(), NoPool, None);
    let task = Task::new(2, Command::Rollback { ctx: ctx(), keys: vec![], start_ts: 1 });
    let (_, job) = executor.execute(CbContext { term: None }, Ok(engine.snapshot()), task);
    assert_eq!(job.pause_duration(), None);
}

#[test]
fn snapshot_error_becomes_finished_with_err() {
    let mut bench = Bench::new(Store::default());
    let msg = bench.run_as(
        7,
        Command::Commit { ctx: ctx(), keys: vec![b"k1".to_vec()], lock_ts: 1, commit_ts: 2 },
        Err(EngineError::Timeout),
    );
    assert_eq!(msg, Msg::FinishedWithErr { cid: 7, err: Error::Engine(EngineError::Timeout), tag: "commit" });
    assert!(msg.is_terminal());
}

#[test]
fn snapshot_term_is_stamped_on_the_command() {
    let engine = MemEngine::new(Store::default());
    let executor: Executor<MemEngine, Inbox, Waiters, NoPool> = Executor::new(Inbox::default(), NoPool, None);
    let task = Task::new(3, Command::MvccByKey { ctx: ctx(), key: b"k".to_vec() });
    let (_, job) = executor.execute(CbContext { term: Some(9) }, Ok(engine.snapshot()), task);
    match job {
        Job::Process { task, .. } => {
            assert_eq!(task.context().term, 9);
            assert_eq!(task.context().region_id, 1);
            assert_eq!(task.cid, 3);
            assert_eq!(task.tag, "key_mvcc");
        }
        Job::Report { .. } => panic!("a snapshot was given"),
    }
}

#[test]
fn engine_refusal_becomes_finished_with_err() {
    let mut store = Store::default();
    store.lock(b"k1", 100, 10, LockType::Put);
    let mut bench = Bench::new(store);
    bench.engine.mood = Mood::Refuses;
    let msg = bench.run(Command::Commit { ctx: ctx(), keys: vec![b"k1".to_vec()], lock_ts: 100, commit_ts: 101 });
    assert_eq!(
        msg,
        Msg::FinishedWithErr { cid: 1, err: Error::Engine(EngineError::EmptyRequest), tag: "commit" }
    );
}

#[test]
fn engine_failure_after_the_hand_over_is_passed_on() {
    let mut store = Store::default();
    store.lock(b"k1", 100, 10, LockType::Put);
    let mut bench = Bench::new(store);
    bench.engine.mood = Mood::FailsLater;
    let msg = bench.run(Command::Commit { ctx: ctx(), keys: vec![b"k1".to_vec()], lock_ts: 100, commit_ts: 101 });
    assert_eq!(
        msg,
        Msg::WriteFinished { cid: 1, pr: ProcessResult::Res, result: Err(EngineError::Timeout), tag: "commit" }
    );
}

fn resolve_store() -> (Store, Vec<Vec<u8>>, Vec<Vec<u8>>) {
    let mut store = Store::default();
    let mut keys_50 = Vec::new();
    let mut keys_60 = Vec::new();
    for i in 0..600u32 {
        let key = format!("key{:04}", i).into_bytes();
        if i % 3 == 0 {
            store.lock(&key, 60, 10, LockType::Pessimistic);
            keys_60.push(key);
        } else {
            store.lock(&key, 50, 10, LockType::Put);
            keys_50.push(key);
        }
    }
    // A lock of a transaction that is not to be resolved.
    store.lock(b"other", 70, 10, LockType::Put);
    (store, keys_50, keys_60)
}

#[test]
fn resolve_lock_batching() {
    let (store, keys_50, keys_60) = resolve_store();
    let mut bench = Bench::new(store);
    // 164 bytes for each key: the 200th key fills the batch.
    bench.engine.resolve_cost = 164;
    assert!(199 * 164 < MAX_TXN_WRITE_SIZE && 200 * 164 >= MAX_TXN_WRITE_SIZE);
    let mut txn_status = HashMap::new();
    txn_status.insert(50, 55);
    txn_status.insert(60, 0);

    let mut cmd =
        Command::ResolveLock { ctx: ctx(), txn_status: txn_status.clone(), scan_key: None, key_locks: vec![] };
    let mut freed_50 = Vec::new();
    let mut freed_60 = Vec::new();
    let mut rounds = 0;
    let mut first_round = true;
    loop {
        rounds += 1;
        assert!(rounds <= 10);
        // The read half scans.
        assert!(cmd.readonly());
        let scanned = match bench.run(cmd) {
            Msg::ReadFinished { pr: ProcessResult::Res, tag, .. } => {
                assert_eq!(tag, "resolve_lock");
                break;
            }
            Msg::ReadFinished { pr: ProcessResult::NextCommand { cmd }, .. } => cmd,
            other => panic!("unexpected message {:?}", other),
        };
        let in_hand = match &scanned {
            Command::ResolveLock { key_locks, scan_key, txn_status: status, .. } => {
                assert_eq!(status, &txn_status);
                if first_round {
                    assert_eq!(key_locks.len(), RESOLVE_LOCK_BATCH_SIZE);
                    assert_eq!(key_locks.len(), 256);
                    assert_eq!(scan_key, &Some(key_locks[255].0.clone()));
                }
                key_locks.clone()
            }
            other => panic!("unexpected command {:?}", other),
        };
        // The write half resolves.
        assert!(!scanned.readonly());
        let batches_before = bench.engine.batches().len();
        let next = match bench.run(scanned) {
            Msg::WriteFinished { pr: ProcessResult::Res, result: Ok(()), .. } => None,
            Msg::WriteFinished { pr: ProcessResult::NextCommand { cmd }, result: Ok(()), .. } => Some(cmd),
            other => panic!("unexpected message {:?}", other),
        };
        let batches = bench.engine.batches();
        assert_eq!(batches.len(), batches_before + 1);
        let resolved = batches.last().unwrap().iter().filter(|m| matches!(m, Modify::Delete(Cf::Lock, _))).count();
        assert!(resolved >= 1);
        assert!(resolved <= 200);
        // The batch is over its budget by less than what one key adds.
        assert!(resolved * 164 < MAX_TXN_WRITE_SIZE + 164);
        assert!((resolved - 1) * 164 < MAX_TXN_WRITE_SIZE);
        if first_round {
            assert_eq!(resolved, 200);
            match &next {
                Some(Command::ResolveLock { scan_key, key_locks, .. }) => {
                    assert_eq!(scan_key, &Some(in_hand[199].0.clone()));
                    assert!(key_locks.is_empty());
                }
                other => panic!("unexpected continuation {:?}", other),
            }
        }
        // One wake-up for each transaction of the round.
        let mut wake_ups = bench.waiters.take();
        wake_ups.sort_by_key(|w| w.lock_ts);
        assert_eq!(wake_ups.len(), 2);
        assert_eq!((wake_ups[0].lock_ts, wake_ups[0].commit_ts, wake_ups[0].pessimistic), (50, 55, false));
        assert_eq!((wake_ups[1].lock_ts, wake_ups[1].commit_ts, wake_ups[1].pessimistic), (60, 0, true));
        assert_eq!(wake_ups[0].hashes.len() + wake_ups[1].hashes.len(), resolved);
        freed_50.extend(wake_ups[0].hashes.clone());
        freed_60.extend(wake_ups[1].hashes.clone());
        first_round = false;
        match next {
            Some(cmd_next) => cmd = cmd_next,
            None => break,
        }
    }
    // All 600 locks are resolved, each transaction was woken with the
    // hashes of its own keys, and the lock of the other transaction stays.
    assert_eq!(freed_50, keys_50.iter().map(|k| key_hash(k)).collect::<Vec<_>>());
    assert_eq!(freed_60, keys_60.iter().map(|k| key_hash(k)).collect::<Vec<_>>());
    assert_eq!(freed_50.len() + freed_60.len(), 600);
    let store = bench.engine.store.lock().unwrap();
    assert_eq!(store.locks.len(), 1);
    assert!(store.locks.contains_key(&b"other".to_vec()));
    // Three rounds of 200 keys, and a scan that finds nothing.
    assert_eq!(rounds, 4);
}

#[test]
fn resolve_lock_without_cutoff_takes_full_scans() {
    let (store, _, _) = resolve_store();
    let mut bench = Bench::new(store);
    bench.engine.resolve_cost = 100;
    let mut txn_status = HashMap::new();
    txn_status.insert(50, 55);
    txn_status.insert(60, 0);
    let mut cmd = Command::ResolveLock { ctx: ctx(), txn_status, scan_key: None, key_locks: vec![] };
    let mut sizes = Vec::new();
    loop {
        let scanned = match bench.run(cmd) {
            Msg::ReadFinished { pr: ProcessResult::Res, .. } => break,
            Msg::ReadFinished { pr: ProcessResult::NextCommand { cmd }, .. } => cmd,
            other => panic!("unexpected message {:?}", other),
        };
        if let Command::ResolveLock { key_locks, .. } = &scanned {
            sizes.push(key_locks.len());
        }
        match bench.run(scanned) {
            Msg::WriteFinished { pr: ProcessResult::Res, result: Ok(()), .. } => break,
            Msg::WriteFinished { pr: ProcessResult::NextCommand { cmd: next }, result: Ok(()), .. } => cmd = next,
            other => panic!("unexpected message {:?}", other),
        }
    }
    // 600 locks in scans of 256: three rounds, the last of which knows
    // that nothing remains.
    assert_eq!(sizes, vec![256, 256, 88]);
}

#[test]
fn resolve_lock_refuses_a_commit_ts_at_or_before_the_lock() {
    let mut store = Store::default();
    store.lock(b"k1", 50, 10, LockType::Put);
    store.lock(b"k2", 60, 10, LockType::Put);
    let locks: Vec<(Key, Lock)> = store.locks.iter().map(|(k, l)| (k.clone(), l.clone())).collect();
    let mut bench = Bench::new(store);
    let mut txn_status = HashMap::new();
    txn_status.insert(50, 55);
    txn_status.insert(60, 60);
    let msg = bench.run(Command::ResolveLock { ctx: ctx(), txn_status, scan_key: None, key_locks: locks });
    assert_eq!(
        msg,
        Msg::FinishedWithErr {
            cid: 1,
            err: Error::InvalidTxnTso { start_ts: 60, commit_ts: 60 },
            tag: "resolve_lock",
        }
    );
    assert!(bench.engine.batches().is_empty());
    assert!(bench.waiters.take().is_empty());
}

#[test]
fn resolve_lock_needs_the_status_of_every_lock_in_hand() {
    let mut store = Store::default();
    store.lock(b"k1", 50, 10, LockType::Put);
    let locks: Vec<(Key, Lock)> = store.locks.iter().map(|(k, l)| (k.clone(), l.clone())).collect();
    let mut txn_status = HashMap::new();
    txn_status.insert(60, 0);
    let cmd = Command::ResolveLock { ctx: ctx(), txn_status, scan_key: None, key_locks: locks };
    assert!(!runnable(&cmd, true));
}

#[test]
fn resolve_lock_lite() {
    let mut store = Store::default();
    store.lock(b"k1", 50, 10, LockType::Put);
    store.lock(b"k2", 50, 10, LockType::Put);
    store.lock(b"k3", 60, 10, LockType::Pessimistic);
    let mut bench = Bench::new(store);
    let msg = bench.run(Command::ResolveLockLite {
        ctx: ctx(),
        start_ts: 50,
        commit_ts: 55,
        resolve_keys: vec![b"k1".to_vec(), b"k2".to_vec()],
    });
    assert_eq!(msg, Msg::WriteFinished { cid: 1, pr: ProcessResult::Res, result: Ok(()), tag: "resolve_lock_lite" });
    assert_eq!(
        bench.waiters.take(),
        vec![WakeUp { lock_ts: 50, hashes: vec![key_hash(b"k1"), key_hash(b"k2")], commit_ts: 55, pessimistic: false }]
    );
    let msg = bench.run(Command::ResolveLockLite {
        ctx: ctx(),
        start_ts: 60,
        commit_ts: 0,
        resolve_keys: vec![b"k3".to_vec()],
    });
    assert_eq!(msg, Msg::WriteFinished { cid: 2, pr: ProcessResult::Res, result: Ok(()), tag: "resolve_lock_lite" });
    assert_eq!(
        bench.waiters.take(),
        vec![WakeUp { lock_ts: 60, hashes: vec![key_hash(b"k3")], commit_ts: 0, pessimistic: true }]
    );
    assert!(bench.engine.store.lock().unwrap().locks.is_empty());
}

#[test]
fn scan_lock_reports_locks_up_to_max_ts() {
    let mut store = Store::default();
    store.lock(b"a", 10, 1, LockType::Put);
    store.lock(b"b", 30, 1, LockType::Put);
    store.lock(b"c", 20, 1, LockType::Put);
    store.locks.get_mut(&b"c".to_vec()).unwrap().primary = b"a".to_vec();
    let mut bench = Bench::new(store);
    let msg = bench.run(Command::ScanLock { ctx: ctx(), max_ts: 20, start_key: None, limit: 10 });
    assert_eq!(
        msg,
        Msg::ReadFinished {
            cid: 1,
            pr: ProcessResult::Locks {
                locks: vec![
                    txn_executor::command::LockInfo { primary_lock: b"a".to_vec(), lock_version: 10, key: b"a".to_vec() },
                    txn_executor::command::LockInfo { primary_lock: b"a".to_vec(), lock_version: 20, key: b"c".to_vec() },
                ],
            },
            tag: "scan_lock",
        }
    );
    assert!(msg.is_terminal());
    // A read produces no modification.
    assert!(bench.engine.batches().is_empty());
}

#[test]
fn mvcc_by_key_walks_the_writes_back() {
    let mut store = Store::default();
    store.lock(b"k", 40, 1, LockType::Put);
    let w = |start_ts| Write { write_type: txn_executor::mvcc::WriteType::Put, start_ts, short_value: None };
    store.writes.insert(b"k".to_vec(), vec![(12, w(10)), (32, w(30)), (22, w(20))]);
    store.values.insert(b"k".to_vec(), vec![(30, b"c".to_vec()), (20, b"b".to_vec()), (10, b"a".to_vec())]);
    let mut bench = Bench::new(store.clone());
    let msg = bench.run(Command::MvccByKey { ctx: ctx(), key: b"k".to_vec() });
    let expected = txn_executor::command::MvccInfo {
        lock: store.locks.get(&b"k".to_vec()).cloned(),
        writes: vec![(32, w(30)), (22, w(20)), (12, w(10))],
        values: vec![(30, b"c".to_vec()), (20, b"b".to_vec()), (10, b"a".to_vec())],
    };
    assert_eq!(
        msg,
        Msg::ReadFinished { cid: 1, pr: ProcessResult::MvccKey { mvcc: expected.clone() }, tag: "key_mvcc" }
    );

    let msg = bench.run(Command::MvccByStartTs { ctx: ctx(), start_ts: 20 });
    assert_eq!(
        msg,
        Msg::ReadFinished {
            cid: 2,
            pr: ProcessResult::MvccStartTs { mvcc: Some((b"k".to_vec(), expected)) },
            tag: "start_ts_mvcc",
        }
    );

    let msg = bench.run(Command::MvccByStartTs { ctx: ctx(), start_ts: 21 });
    assert_eq!(
        msg,
        Msg::ReadFinished { cid: 3, pr: ProcessResult::MvccStartTs { mvcc: None }, tag: "start_ts_mvcc" }
    );
}

#[test]
fn resolve_lock_lite_with_invalid_ts() {
    let mut store = Store::default();
    store.lock(b"k1", 50, 10, LockType::Put);
    let mut bench = Bench::new(store);
    let msg = bench.run(Command::ResolveLockLite {
        ctx: ctx(),
        start_ts: 50,
        commit_ts: 50,
        resolve_keys: vec![b"k1".to_vec()],
    });
    assert_eq!(
        msg,
        Msg::FinishedWithErr {
            cid: 1,
            err: Error::InvalidTxnTso { start_ts: 50, commit_ts: 50 },
            tag: "resolve_lock_lite",
        }
    );
    assert!(bench.engine.batches().is_empty());
    assert!(bench.waiters.take().is_empty());
    // The lock is still there.
    assert!(bench.engine.store.lock().unwrap().locks.contains_key(&b"k1".to_vec()));
}

#[test]
fn a_failed_snapshot_fails_the_task_whatever_its_command() {
    let mut bench = Bench::new(Store::default());
    // A command that could not be run, had there been a snapshot.
    let mut txn_status = HashMap::new();
    txn_status.insert(60, 0);
    let cmd = Command::ResolveLock {
        ctx: ctx(),
        txn_status,
        scan_key: None,
        key_locks: vec![(
            b"k".to_vec(),
            Lock { lock_type: LockType::Put, primary: b"k".to_vec(), ts: 50, ttl: 1, short_value: None, for_update_ts: 0 },
        )],
    };
    assert!(!runnable(&cmd, true));
    let msg = bench.run_as(4, cmd, Err(EngineError::EmptyRequest));
    assert_eq!(
        msg,
        Msg::FinishedWithErr { cid: 4, err: Error::Engine(EngineError::EmptyRequest), tag: "resolve_lock" }
    );
}
