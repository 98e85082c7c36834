//! The interface of the MVCC layer: the data it hands out and the
//! operations of a transaction and of a reader over one snapshot.
//!
//! The layer itself lives outside this crate. Nothing is promised of what
//! its operations return: the code that calls them is verified for every
//! answer.

use vstd::prelude::*;
use crate::kv::{IsolationLevel, Key, Modify, ScanMode, Value};
use std::collections::HashMap;

verus! {

/// Byte budget of one write batch. A command that resolves locks stops
/// adding keys to its batch once the batch has reached this size.
pub const MAX_TXN_WRITE_SIZE: usize = 32768;

#[derive(Clone, Copy, Debug, PartialEq, Eq)]
pub enum LockType {
    Put,
    Delete,
    Lock,
    Pessimistic,
}

/// A lock that a transaction holds on a key.
#[derive(Clone, Debug, PartialEq, Eq)]
pub struct Lock {
    pub lock_type: LockType,
    pub primary: Vec<u8>,
    /// Start timestamp of the transaction that holds the lock.
    pub ts: u64,
    pub ttl: u64,
    pub short_value: Option<Value>,
    pub for_update_ts: u64,
}

#[derive(Clone, Copy, Debug, PartialEq, Eq)]
pub enum WriteType {
    Put,
    Delete,
    Lock,
    Rollback,
}

/// A committed (or rolled back) version of a key.
#[derive(Clone, Debug, PartialEq, Eq)]
pub struct Write {
    pub write_type: WriteType,
    pub start_ts: u64,
    pub short_value: Option<Value>,
}

/// What a transaction asks to do to one key.
#[derive(Clone, Debug, PartialEq, Eq)]
pub enum Mutation {
    Put(Key, Value),
    Delete(Key),
    Lock(Key),
    Insert(Key, Value),
}

/// Options of a prewrite or of a pessimistic lock acquisition.
#[derive(Clone, Debug, PartialEq, Eq)]
pub struct Options {
    pub lock_ttl: u64,
    pub skip_constraint_check: bool,
    /// Zero for an optimistic transaction, positive for a pessimistic one.
    pub for_update_ts: u64,
    /// For a pessimistic prewrite, one flag per mutation.
    pub is_pessimistic_lock: Vec<bool>,
    pub is_first_lock: bool,
    /// In milliseconds; interpreted by the lock manager.
    pub wait_timeout: i64,
}

/// Descriptor of a lock that a command set free.
#[derive(Clone, Copy, Debug, PartialEq, Eq)]
pub struct ReleasedLock {
    /// Hash of the key that was locked.
    pub hash: u64,
    pub pessimistic: bool,
}

/// How a lock is taken off a key.
#[derive(Clone, Copy, Debug, PartialEq, Eq)]
pub enum Release {
    Commit { commit_ts: u64 },
    Rollback,
    Cleanup { current_ts: u64 },
    PessimisticRollback { for_update_ts: u64 },
}

/// Failure of an MVCC operation.
#[derive(Clone, Debug, PartialEq, Eq)]
pub enum MvccError {
    /// The key is locked by another transaction. Never fatal to a command.
    KeyIsLocked { key: Vec<u8>, primary: Vec<u8>, ts: u64, ttl: u64 },
    WriteConflict { start_ts: u64, conflict_start_ts: u64, conflict_commit_ts: u64, key: Vec<u8> },
    TxnLockNotFound { start_ts: u64, commit_ts: u64, key: Vec<u8> },
    Committed { commit_ts: u64 },
    AlreadyExist { key: Vec<u8> },
    Engine(crate::kv::EngineError),
    Other { message: String },
}

/// Counters of the operations made on one column family.
#[derive(Clone, Copy, Debug, PartialEq, Eq)]
pub struct CfStatistics {
    pub processed: usize,
    pub get: usize,
    pub next: usize,
    pub prev: usize,
    pub seek: usize,
    pub seek_for_prev: usize,
    pub over_seek_bound: usize,
}

/// Sum of two counters, held at the largest value once it is reached.
pub open spec fn sat_add(a: usize, b: usize) -> usize {
    if a + b > usize::MAX {
        usize::MAX
    } else {
        (a + b) as usize
    }
}

impl CfStatistics {
    pub open spec fn zero() -> CfStatistics {
        CfStatistics {
            processed: 0,
            get: 0,
            next: 0,
            prev: 0,
            seek: 0,
            seek_for_prev: 0,
            over_seek_bound: 0,
        }
    }

    pub open spec fn plus(self, other: CfStatistics) -> CfStatistics {
        CfStatistics {
            processed: sat_add(self.processed, other.processed),
            get: sat_add(self.get, other.get),
            next: sat_add(self.next, other.next),
            prev: sat_add(self.prev, other.prev),
            seek: sat_add(self.seek, other.seek),
            seek_for_prev: sat_add(self.seek_for_prev, other.seek_for_prev),
            over_seek_bound: sat_add(self.over_seek_bound, other.over_seek_bound),
        }
    }

    /// No counter of `self` is above the same counter of `other`.
    pub open spec fn le(self, other: CfStatistics) -> bool {
        &&& self.processed <= other.processed
        &&& self.get <= other.get
        &&& self.next <= other.next
        &&& self.prev <= other.prev
        &&& self.seek <= other.seek
        &&& self.seek_for_prev <= other.seek_for_prev
        &&& self.over_seek_bound <= other.over_seek_bound
    }

    pub fn add(&mut self, other: &CfStatistics)
        ensures
            *final(self) == old(self).plus(*other),
    {
        self.processed = self.processed.saturating_add(other.processed);
        self.get = self.get.saturating_add(other.get);
        self.next = self.next.saturating_add(other.next);
        self.prev = self.prev.saturating_add(other.prev);
        self.seek = self.seek.saturating_add(other.seek);
        self.seek_for_prev = self.seek_for_prev.saturating_add(other.seek_for_prev);
        self.over_seek_bound = self.over_seek_bound.saturating_add(other.over_seek_bound);
    }
}

impl Default for CfStatistics {
    fn default() -> (r: CfStatistics)
        ensures
            r == CfStatistics::zero(),
    {
        CfStatistics { processed: 0, get: 0, next: 0, prev: 0, seek: 0, seek_for_prev: 0, over_seek_bound: 0 }
    }
}

/// Counters of the operations that a command made on the store.
#[derive(Clone, Copy, Debug, PartialEq, Eq)]
pub struct Statistics {
    pub lock: CfStatistics,
    pub write: CfStatistics,
    pub data: CfStatistics,
}

impl Statistics {
    pub open spec fn zero() -> Statistics {
        Statistics { lock: CfStatistics::zero(), write: CfStatistics::zero(), data: CfStatistics::zero() }
    }

    pub open spec fn plus(self, other: Statistics) -> Statistics {
        Statistics {
            lock: self.lock.plus(other.lock),
            write: self.write.plus(other.write),
            data: self.data.plus(other.data),
        }
    }

    /// No counter of `self` is above the same counter of `other`.
    pub open spec fn le(self, other: Statistics) -> bool {
        &&& self.lock.le(other.lock)
        &&& self.write.le(other.write)
        &&& self.data.le(other.data)
    }

    pub fn new() -> (r: Statistics)
        ensures
            r == Statistics::zero(),
    {
        let zero = CfStatistics {
            processed: 0,
            get: 0,
            next: 0,
            prev: 0,
            seek: 0,
            seek_for_prev: 0,
            over_seek_bound: 0,
        };
        Statistics { lock: zero, write: zero, data: zero }
    }

    /// Folds the counters of `other` into `self`.
    pub fn add(&mut self, other: &Statistics)
        ensures
            *final(self) == old(self).plus(*other),
            old(self).le(*final(self)),
    {
        self.lock.add(&other.lock);
        self.write.add(&other.write);
        self.data.add(&other.data);
    }
}

impl Default for Statistics {
    fn default() -> (r: Statistics)
        ensures
            r == Statistics::zero(),
    {
        Statistics::new()
    }
}

/// Which locks a scan hands out.
pub enum LockFilter<'a> {
    /// Locks taken at or before the timestamp.
    UpTo(u64),
    /// Locks of the transactions whose status is known.
    OfTransactions(&'a HashMap<u64, u64>),
}

impl<'a> LockFilter<'a> {
    pub open spec fn spec_accepts(&self, lock: &Lock) -> bool {
        match *self {
            LockFilter::UpTo(max_ts) => lock.ts <= max_ts,
            LockFilter::OfTransactions(txn_status) => txn_status@.contains_key(lock.ts),
        }
    }

    /// Whether the scan hands out `lock`.
    #[verifier::when_used_as_spec(spec_accepts)]
    pub fn accepts(&self, lock: &Lock) -> (r: bool)
        ensures
            r == self.spec_accepts(lock),
    {
        broadcast use vstd::std_specs::hash::group_hash_axioms;
        match self {
            LockFilter::UpTo(max_ts) => lock.ts <= *max_ts,
            LockFilter::OfTransactions(txn_status) => txn_status.contains_key(&lock.ts),
        }
    }
}

/// How a reader is opened over a snapshot.
#[derive(Clone, Copy, Debug, PartialEq, Eq)]
pub struct ReaderOptions {
    pub scan_mode: Option<ScanMode>,
    pub fill_cache: bool,
    pub isolation_level: IsolationLevel,
}

/// A transaction that builds MVCC modifications on one snapshot.
pub trait MvccTxn: Sized {
    fn prewrite(&mut self, mutation: Mutation, primary: &Vec<u8>, options: &Options) -> Result<(), MvccError>;

    fn pessimistic_prewrite(
        &mut self,
        mutation: Mutation,
        primary: &Vec<u8>,
        is_pessimistic_lock: bool,
        options: &Options,
    ) -> Result<(), MvccError>;

    fn acquire_pessimistic_lock(
        &mut self,
        key: Key,
        primary: &Vec<u8>,
        should_not_exist: bool,
        options: &Options,
    ) -> Result<(), MvccError>;

    fn commit(&mut self, key: Key, commit_ts: u64) -> Result<Option<ReleasedLock>, MvccError>;

    fn rollback(&mut self, key: Key) -> Result<Option<ReleasedLock>, MvccError>;

    fn cleanup(&mut self, key: Key, current_ts: u64) -> Result<Option<ReleasedLock>, MvccError>;

    fn pessimistic_rollback(&mut self, key: Key, for_update_ts: u64) -> Result<
        Option<ReleasedLock>,
        MvccError,
    >;

    /// Returns the time to live that the primary lock has afterwards.
    fn txn_heart_beat(&mut self, primary_key: Key, advise_ttl: u64) -> Result<u64, MvccError>;

    fn set_start_ts(&mut self, start_ts: u64);

    /// Bytes of the modifications built so far.
    fn write_size(&self) -> usize;

    fn take_statistics(&mut self) -> Statistics;

    fn into_modifies(self) -> Vec<Modify>;
}

/// A reader of locks, writes and values on one snapshot.
pub trait MvccReader: Sized {
    fn load_lock(&mut self, key: &Key) -> Result<Option<Lock>, MvccError>;

    /// The latest write of `key` committed at or before `ts`, with its
    /// commit timestamp.
    fn seek_write(&mut self, key: &Key, ts: u64) -> Result<Option<(u64, Write)>, MvccError>;

    fn scan_values_in_default(&mut self, key: &Key) -> Result<Vec<(u64, Value)>, MvccError>;

    /// The first key that a transaction started at `ts` wrote.
    fn seek_ts(&mut self, ts: u64) -> Result<Option<Key>, MvccError>;

    /// Up to `limit` locks from `start` on that `filter` accepts, and
    /// whether more may follow.
    fn scan_locks(&mut self, start: Option<&Key>, filter: &LockFilter, limit: usize) -> Result<
        (Vec<(Key, Lock)>, bool),
        MvccError,
    >;

    fn get_statistics(&self) -> &Statistics;
}

/// A point-in-time view of the store.
pub trait Snapshot: Sized {
    type Txn: MvccTxn;

    type Reader: MvccReader;

    fn txn(self, start_ts: u64, fill_cache: bool) -> Result<Self::Txn, MvccError>;

    fn reader(self, options: ReaderOptions) -> Self::Reader;
}

} // verus!
