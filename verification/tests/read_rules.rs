//! The read processor against a reader that answers from a script and
//! keeps a record of what it was asked.

use std::cell::RefCell;
use std::collections::{HashMap, VecDeque};
use std::rc::Rc;

use txn_executor::command::{Command, LockInfo, MvccInfo};
use txn_executor::effects::Effects;
use txn_executor::errors::Error;
use txn_executor::kv::{Context, EngineError, IsolationLevel, Key, Modify, ScanMode, Value};
use txn_executor::mvcc::{
    Lock, LockFilter, LockType, Mutation, MvccError, MvccReader, MvccTxn, Options, ReaderOptions, ReleasedLock,
    Snapshot, Statistics, Write, WriteType,
};
use txn_executor::read::{
    find_mvcc_infos_by_key, lock_infos, process_read_impl, reader_options, resolve_lock_scanned, supports_read,
    RESOLVE_LOCK_BATCH_SIZE,
};
use txn_executor::scheduler::ProcessResult;

#[derive(Clone, Debug, PartialEq)]
enum Asked {
    Open(ReaderOptions),
    LoadLock(Key),
    SeekWrite(Key, u64),
    ScanValues(Key),
    SeekTs(u64),
    ScanLocks { start: Option<Key>, limit: usize, accepted: Vec<u64> },
}

#[derive(Clone, Default)]
struct Script {
    asked: Rc<RefCell<Vec<Asked>>>,
    lock: Rc<RefCell<Option<Result<Option<Lock>, MvccError>>>>,
    seeks: Rc<RefCell<VecDeque<Result<Option<(u64, Write)>, MvccError>>>>,
    values: Rc<RefCell<Option<Result<Vec<(u64, Value)>, MvccError>>>>,
    key: Rc<RefCell<Option<Result<Option<Key>, MvccError>>>>,
    locks: Rc<RefCell<Option<Result<(Vec<(Key, Lock)>, bool), MvccError>>>>,
    statistics: Statistics,
}

impl Script {
    fn seeks(self, replies: Vec<Result<Option<(u64, Write)>, MvccError>>) -> Script {
        *self.seeks.borrow_mut() = replies.into();
        self
    }

    fn asked(&self) -> Vec<Asked> {
        self.asked.borrow().clone()
    }
}

impl MvccReader for Script {
    fn load_lock(&mut self, key: &Key) -> Result<Option<Lock>, MvccError> {
        self.asked.borrow_mut().push(Asked::LoadLock(key.clone()));
        self.lock.borrow_mut().take().unwrap_or(Ok(None))
    }

    fn seek_write(&mut self, key: &Key, ts: u64) -> Result<Option<(u64, Write)>, MvccError> {
        self.asked.borrow_mut().push(Asked::SeekWrite(key.clone(), ts));
        self.seeks.borrow_mut().pop_front().unwrap_or(Ok(None))
    }

    fn scan_values_in_default(&mut self, key: &Key) -> Result<Vec<(u64, Value)>, MvccError> {
        self.asked.borrow_mut().push(Asked::ScanValues(key.clone()));
        self.values.borrow_mut().take().unwrap_or(Ok(Vec::new()))
    }

    fn seek_ts(&mut self, ts: u64) -> Result<Option<Key>, MvccError> {
        self.asked.borrow_mut().push(Asked::SeekTs(ts));
        self.key.borrow_mut().take().unwrap_or(Ok(None))
    }

    fn scan_locks(
        &mut self,
        start: Option<&Key>,
        filter: &LockFilter,
        limit: usize,
    ) -> Result<(Vec<(Key, Lock)>, bool), MvccError> {
        // Which of the timestamps 10, 20, .. 90 the filter lets through.
        let accepted = (1..10u64).map(|i| i * 10).filter(|ts| filter.accepts(&lock(*ts, b"p"))).collect();
        self.asked.borrow_mut().push(Asked::ScanLocks { start: start.cloned(), limit, accepted });
        self.locks.borrow_mut().take().unwrap_or(Ok((Vec::new(), false)))
    }

    fn get_statistics(&self) -> &Statistics {
        &self.statistics
    }
}

struct NoTxn;

impl MvccTxn for NoTxn {
    fn prewrite(&mut self, _: Mutation, _: &Vec<u8>, _: &Options) -> Result<(), MvccError> {
        Ok(())
    }

    fn pessimistic_prewrite(&mut self, _: Mutation, _: &Vec<u8>, _: bool, _: &Options) -> Result<(), MvccError> {
        Ok(())
    }

    fn acquire_pessimistic_lock(&mut self, _: Key, _: &Vec<u8>, _: bool, _: &Options) -> Result<(), MvccError> {
        Ok(())
    }

    fn commit(&mut self, _: Key, _: u64) -> Result<Option<ReleasedLock>, MvccError> {
        Ok(None)
    }

    fn rollback(&mut self, _: Key) -> Result<Option<ReleasedLock>, MvccError> {
        Ok(None)
    }

    fn cleanup(&mut self, _: Key, _: u64) -> Result<Option<ReleasedLock>, MvccError> {
        Ok(None)
    }

    fn pessimistic_rollback(&mut self, _: Key, _: u64) -> Result<Option<ReleasedLock>, MvccError> {
        Ok(None)
    }

    fn txn_heart_beat(&mut self, _: Key, _: u64) -> Result<u64, MvccError> {
        Ok(0)
    }

    fn set_start_ts(&mut self, _: u64) {}

    fn write_size(&self) -> usize {
        0
    }

    fn take_statistics(&mut self) -> Statistics {
        Statistics::new()
    }

    fn into_modifies(self) -> Vec<Modify> {
        Vec::new()
    }
}

impl Snapshot for Script {
    type Txn = NoTxn;
    type Reader = Script;

    fn txn(self, _start_ts: u64, _fill_cache: bool) -> Result<NoTxn, MvccError> {
        Ok(NoTxn)
    }

    fn reader(self, options: ReaderOptions) -> Script {
        self.asked.borrow_mut().push(Asked::Open(options));
        self
    }
}

fn lock(ts: u64, primary: &[u8]) -> Lock {
    Lock { lock_type: LockType::Put, primary: primary.to_vec(), ts, ttl: 1, short_value: None, for_update_ts: 0 }
}

fn write(start_ts: u64) -> Write {
    Write { write_type: WriteType::Put, start_ts, short_value: None }
}

fn hit(commit_ts: u64, start_ts: u64) -> Result<Option<(u64, Write)>, MvccError> {
    Ok(Some((commit_ts, write(start_ts))))
}

fn ctx() -> Context {
    let mut ctx = Context::new(3);
    ctx.isolation_level = IsolationLevel::Rc;
    ctx
}

fn forward() -> ReaderOptions {
    ReaderOptions { scan_mode: Some(ScanMode::Forward), fill_cache: true, isolation_level: IsolationLevel::Rc }
}

fn counted() -> Statistics {
    let mut statistics = Statistics::new();
    statistics.lock.seek = 4;
    statistics.data.next = 2;
    statistics
}

#[test]
fn walk_seeks_below_each_commit_ts() {
    let mut reader = Script::default().seeks(vec![hit(30, 25), hit(20, 15), hit(10, 5), Ok(None)]);
    *reader.lock.borrow_mut() = Some(Ok(Some(lock(40, b"p"))));
    *reader.values.borrow_mut() = Some(Ok(vec![(25, b"c".to_vec()), (15, b"b".to_vec())]));
    let key = b"k".to_vec();
    let found = find_mvcc_infos_by_key(&mut reader, &key, u64::MAX, &mut Effects::new());
    assert_eq!(
        found,
        Ok((
            Some(lock(40, b"p")),
            vec![(30, write(25)), (20, write(15)), (10, write(5))],
            vec![(25, b"c".to_vec()), (15, b"b".to_vec())],
        ))
    );
    assert_eq!(
        reader.asked(),
        vec![
            Asked::LoadLock(key.clone()),
            Asked::SeekWrite(key.clone(), u64::MAX),
            Asked::SeekWrite(key.clone(), 29),
            Asked::SeekWrite(key.clone(), 19),
            Asked::SeekWrite(key.clone(), 9),
            Asked::ScanValues(key.clone()),
        ]
    );
}

#[test]
fn walk_of_a_key_without_writes() {
    let mut reader = Script::default();
    let found = find_mvcc_infos_by_key(&mut reader, &b"k".to_vec(), 50, &mut Effects::new());
    assert_eq!(found, Ok((None, vec![], vec![])));
    assert_eq!(reader.asked()[1], Asked::SeekWrite(b"k".to_vec(), 50));
}

#[test]
fn walk_ends_at_commit_ts_zero() {
    let mut reader = Script::default().seeks(vec![hit(1, 0), hit(0, 0), hit(7, 7)]);
    let key = b"k".to_vec();
    let found = find_mvcc_infos_by_key(&mut reader, &key, 5, &mut Effects::new());
    assert_eq!(found, Ok((None, vec![(1, write(0)), (0, write(0))], vec![])));
    assert_eq!(
        reader.asked(),
        vec![
            Asked::LoadLock(key.clone()),
            Asked::SeekWrite(key.clone(), 5),
            Asked::SeekWrite(key.clone(), 0),
            Asked::ScanValues(key.clone()),
        ]
    );
}

#[test]
fn walk_ends_at_a_write_from_after_the_timestamp_sought() {
    let mut reader = Script::default().seeks(vec![hit(30, 25), hit(31, 26), hit(5, 1)]);
    let found = find_mvcc_infos_by_key(&mut reader, &b"k".to_vec(), 40, &mut Effects::new());
    assert_eq!(found, Ok((None, vec![(30, write(25))], vec![])));
}

#[test]
fn walk_fails_with_the_reader() {
    let other = || MvccError::Other { message: "broken".to_string() };
    let mut reader = Script::default();
    *reader.lock.borrow_mut() = Some(Err(other()));
    assert_eq!(find_mvcc_infos_by_key(&mut reader, &b"k".to_vec(), 40, &mut Effects::new()), Err(Error::Mvcc(other())));
    assert_eq!(reader.asked().len(), 1);

    let mut reader = Script::default().seeks(vec![hit(30, 25), Err(other()), hit(20, 15)]);
    assert_eq!(find_mvcc_infos_by_key(&mut reader, &b"k".to_vec(), 40, &mut Effects::new()), Err(Error::Mvcc(other())));
    // Nothing is asked after the seek that failed.
    assert_eq!(
        reader.asked(),
        vec![
            Asked::LoadLock(b"k".to_vec()),
            Asked::SeekWrite(b"k".to_vec(), 40),
            Asked::SeekWrite(b"k".to_vec(), 29),
        ]
    );

    let mut reader = Script::default();
    *reader.values.borrow_mut() = Some(Err(MvccError::Engine(EngineError::EmptyRequest)));
    assert_eq!(
        find_mvcc_infos_by_key(&mut reader, &b"k".to_vec(), 40, &mut Effects::new()),
        Err(Error::Mvcc(MvccError::Engine(EngineError::EmptyRequest)))
    );
}

#[test]
fn lock_infos_keep_the_order_of_the_scan() {
    assert_eq!(lock_infos(vec![]), vec![]);
    assert_eq!(
        lock_infos(vec![(b"b".to_vec(), lock(20, b"p1")), (b"a".to_vec(), lock(10, b"p2"))]),
        vec![
            LockInfo { primary_lock: b"p1".to_vec(), lock_version: 20, key: b"b".to_vec() },
            LockInfo { primary_lock: b"p2".to_vec(), lock_version: 10, key: b"a".to_vec() },
        ]
    );
}

#[test]
fn scanned_locks_go_to_the_write_half() {
    let mut txn_status = HashMap::new();
    txn_status.insert(50, 55);
    assert_eq!(resolve_lock_scanned(ctx(), txn_status.clone(), vec![], false), ProcessResult::Res);
    // Nothing found ends the resolution, whatever the scan says of more.
    assert_eq!(resolve_lock_scanned(ctx(), txn_status.clone(), vec![], true), ProcessResult::Res);

    let pairs = vec![(b"a".to_vec(), lock(50, b"p")), (b"b".to_vec(), lock(50, b"p"))];
    assert_eq!(
        resolve_lock_scanned(ctx(), txn_status.clone(), pairs.clone(), true),
        ProcessResult::NextCommand {
            cmd: Command::ResolveLock {
                ctx: ctx(),
                txn_status: txn_status.clone(),
                scan_key: Some(b"b".to_vec()),
                key_locks: pairs.clone(),
            },
        }
    );
    assert_eq!(
        resolve_lock_scanned(ctx(), txn_status.clone(), pairs.clone(), false),
        ProcessResult::NextCommand {
            cmd: Command::ResolveLock { ctx: ctx(), txn_status, scan_key: None, key_locks: pairs },
        }
    );
}

#[test]
fn reader_is_opened_forward_with_the_request_settings() {
    assert_eq!(reader_options(&ctx()), forward());
    let mut quiet = Context::new(1);
    quiet.not_fill_cache = true;
    assert_eq!(
        reader_options(&quiet),
        ReaderOptions { scan_mode: Some(ScanMode::Forward), fill_cache: false, isolation_level: IsolationLevel::Si }
    );
}

#[test]
fn lock_filters() {
    let up_to = LockFilter::UpTo(20);
    assert!(up_to.accepts(&lock(19, b"p")));
    assert!(up_to.accepts(&lock(20, b"p")));
    assert!(!up_to.accepts(&lock(21, b"p")));
    let mut txn_status = HashMap::new();
    txn_status.insert(50, 55);
    txn_status.insert(60, 0);
    let known = LockFilter::OfTransactions(&txn_status);
    assert!(known.accepts(&lock(50, b"p")));
    assert!(known.accepts(&lock(60, b"p")));
    assert!(!known.accepts(&lock(55, b"p")));
    assert!(!known.accepts(&lock(0, b"p")));
}

#[test]
fn supports_read_tells_the_commands_of_the_read_processor() {
    assert!(supports_read(&Command::MvccByKey { ctx: ctx(), key: b"k".to_vec() }));
    assert!(supports_read(&Command::MvccByStartTs { ctx: ctx(), start_ts: 1 }));
    assert!(supports_read(&Command::ScanLock { ctx: ctx(), max_ts: 1, start_key: None, limit: 1 }));
    assert!(supports_read(&Command::ResolveLock {
        ctx: ctx(),
        txn_status: HashMap::new(),
        scan_key: None,
        key_locks: vec![],
    }));
    assert!(!supports_read(&Command::Pause { ctx: ctx(), duration: 1 }));
    assert!(!supports_read(&Command::Rollback { ctx: ctx(), keys: vec![], start_ts: 1 }));
}

#[test]
fn mvcc_by_key_reads_from_the_latest_write() {
    let mut script = Script::default().seeks(vec![hit(30, 25), Ok(None)]);
    script.statistics = counted();
    let mut statistics = Statistics::new();
    statistics.lock.seek = 1;
    let r = process_read_impl(Command::MvccByKey { ctx: ctx(), key: b"k".to_vec() }, script.clone(), &mut statistics, &mut Effects::new());
    assert_eq!(
        r,
        Ok(ProcessResult::MvccKey { mvcc: MvccInfo { lock: None, writes: vec![(30, write(25))], values: vec![] } })
    );
    assert_eq!(script.asked()[0], Asked::Open(forward()));
    assert_eq!(script.asked()[2], Asked::SeekWrite(b"k".to_vec(), u64::MAX));
    // The counters of the reader are added to those of the caller.
    assert_eq!(statistics.lock.seek, 5);
    assert_eq!(statistics.data.next, 2);
}

#[test]
fn mvcc_by_start_ts_finds_the_key_first() {
    let script = Script::default().seeks(vec![hit(30, 25), Ok(None)]);
    *script.key.borrow_mut() = Some(Ok(Some(b"found".to_vec())));
    let mut statistics = Statistics::new();
    let r = process_read_impl(Command::MvccByStartTs { ctx: ctx(), start_ts: 25 }, script.clone(), &mut statistics, &mut Effects::new());
    assert_eq!(
        r,
        Ok(ProcessResult::MvccStartTs {
            mvcc: Some((b"found".to_vec(), MvccInfo { lock: None, writes: vec![(30, write(25))], values: vec![] })),
        })
    );
    assert_eq!(
        script.asked(),
        vec![
            Asked::Open(forward()),
            Asked::SeekTs(25),
            Asked::LoadLock(b"found".to_vec()),
            Asked::SeekWrite(b"found".to_vec(), u64::MAX),
            Asked::SeekWrite(b"found".to_vec(), 29),
            Asked::ScanValues(b"found".to_vec()),
        ]
    );

    let script = Script::default();
    let r = process_read_impl(Command::MvccByStartTs { ctx: ctx(), start_ts: 25 }, script.clone(), &mut statistics, &mut Effects::new());
    assert_eq!(r, Ok(ProcessResult::MvccStartTs { mvcc: None }));
    assert_eq!(script.asked(), vec![Asked::Open(forward()), Asked::SeekTs(25)]);
}

#[test]
fn a_failed_read_keeps_the_counters() {
    let mut script = Script::default();
    script.statistics = counted();
    *script.key.borrow_mut() = Some(Err(MvccError::Engine(EngineError::Timeout)));
    let mut statistics = Statistics::new();
    let r = process_read_impl(Command::MvccByStartTs { ctx: ctx(), start_ts: 25 }, script, &mut statistics, &mut Effects::new());
    assert_eq!(r, Err(Error::Mvcc(MvccError::Engine(EngineError::Timeout))));
    assert_eq!(statistics, counted());

    let mut script = Script::default();
    script.statistics = counted();
    *script.locks.borrow_mut() = Some(Err(MvccError::Other { message: "scan".to_string() }));
    let mut statistics = Statistics::new();
    let r = process_read_impl(
        Command::ScanLock { ctx: ctx(), max_ts: 1, start_key: None, limit: 1 },
        script,
        &mut statistics,
        &mut Effects::new(),
    );
    assert_eq!(r, Err(Error::Mvcc(MvccError::Other { message: "scan".to_string() })));
    assert_eq!(statistics, counted());
}

#[test]
fn scan_lock_asks_for_the_locks_up_to_max_ts() {
    let script = Script::default();
    *script.locks.borrow_mut() = Some(Ok((vec![(b"a".to_vec(), lock(10, b"p")), (b"c".to_vec(), lock(30, b"q"))], true)));
    let mut statistics = Statistics::new();
    let r = process_read_impl(
        Command::ScanLock { ctx: ctx(), max_ts: 30, start_key: Some(b"a".to_vec()), limit: 2 },
        script.clone(),
        &mut statistics,
        &mut Effects::new(),
    );
    assert_eq!(
        r,
        Ok(ProcessResult::Locks {
            locks: vec![
                LockInfo { primary_lock: b"p".to_vec(), lock_version: 10, key: b"a".to_vec() },
                LockInfo { primary_lock: b"q".to_vec(), lock_version: 30, key: b"c".to_vec() },
            ],
        })
    );
    assert_eq!(
        script.asked(),
        vec![
            Asked::Open(forward()),
            Asked::ScanLocks { start: Some(b"a".to_vec()), limit: 2, accepted: vec![10, 20, 30] },
        ]
    );
}

#[test]
fn resolve_lock_scans_a_batch_of_the_known_transactions() {
    let mut txn_status = HashMap::new();
    txn_status.insert(50, 55);
    txn_status.insert(60, 0);
    let pairs = vec![(b"a".to_vec(), lock(50, b"p")), (b"b".to_vec(), lock(60, b"p"))];
    let script = Script::default();
    *script.locks.borrow_mut() = Some(Ok((pairs.clone(), true)));
    let mut statistics = Statistics::new();
    let r = process_read_impl(
        Command::ResolveLock {
            ctx: ctx(),
            txn_status: txn_status.clone(),
            scan_key: Some(b"0".to_vec()),
            key_locks: vec![],
        },
        script.clone(),
        &mut statistics,
        &mut Effects::new(),
    );
    assert_eq!(
        r,
        Ok(ProcessResult::NextCommand {
            cmd: Command::ResolveLock {
                ctx: ctx(),
                txn_status: txn_status.clone(),
                scan_key: Some(b"b".to_vec()),
                key_locks: pairs,
            },
        })
    );
    assert_eq!(RESOLVE_LOCK_BATCH_SIZE, 256);
    assert_eq!(
        script.asked(),
        vec![
            Asked::Open(forward()),
            Asked::ScanLocks { start: Some(b"0".to_vec()), limit: 256, accepted: vec![50, 60] },
        ]
    );

    let script = Script::default();
    let r = process_read_impl(
        Command::ResolveLock { ctx: ctx(), txn_status, scan_key: None, key_locks: vec![] },
        script,
        &mut statistics,
        &mut Effects::new(),
    );
    assert_eq!(r, Ok(ProcessResult::Res));
}
