//! Transactional commands and what can be read off them without running
//! them.

use vstd::prelude::*;
use crate::kv::{CommandPri, Context, Key, Value};
use crate::mvcc::{Lock, Mutation, Options, Write};
use std::collections::HashMap;

verus! {

/// What is known of a lock that a scan found.
#[derive(Clone, Debug, PartialEq, Eq)]
pub struct LockInfo {
    pub primary_lock: Vec<u8>,
    pub lock_version: u64,
    pub key: Vec<u8>,
}

/// All that the store holds of one key: its lock, its writes from the
/// latest back, and its versioned values.
#[derive(Clone, Debug, PartialEq, Eq)]
pub struct MvccInfo {
    pub lock: Option<Lock>,
    pub writes: Vec<(u64, Write)>,
    pub values: Vec<(u64, Value)>,
}

/// A transactional command.
#[allow(inconsistent_fields)]
#[derive(Clone, Debug, PartialEq, Eq)]
pub enum Command {
    Prewrite { ctx: Context, mutations: Vec<Mutation>, primary: Vec<u8>, start_ts: u64, options: Options },
    AcquirePessimisticLock {
        ctx: Context,
        /// Each key with the flag "must not exist yet".
        keys: Vec<(Key, bool)>,
        primary: Vec<u8>,
        start_ts: u64,
        options: Options,
    },
    Commit { ctx: Context, keys: Vec<Key>, lock_ts: u64, commit_ts: u64 },
    Cleanup { ctx: Context, key: Key, start_ts: u64, current_ts: u64 },
    Rollback { ctx: Context, keys: Vec<Key>, start_ts: u64 },
    PessimisticRollback { ctx: Context, keys: Vec<Key>, start_ts: u64, for_update_ts: u64 },
    TxnHeartBeat { ctx: Context, primary_key: Key, start_ts: u64, advise_ttl: u64 },
    ScanLock { ctx: Context, max_ts: u64, start_key: Option<Key>, limit: usize },
    ResolveLock {
        ctx: Context,
        /// Start timestamp of each transaction to resolve, with its commit
        /// timestamp, zero for a transaction that was rolled back.
        txn_status: HashMap<u64, u64>,
        scan_key: Option<Key>,
        key_locks: Vec<(Key, Lock)>,
    },
    ResolveLockLite { ctx: Context, start_ts: u64, commit_ts: u64, resolve_keys: Vec<Key> },
    Pause { ctx: Context, duration: u64 },
    MvccByKey { ctx: Context, key: Key },
    MvccByStartTs { ctx: Context, start_ts: u64 },
}

impl Command {
    pub open spec fn spec_context(&self) -> Context {
        match *self {
            Command::Prewrite { ctx, .. } => ctx,
            Command::AcquirePessimisticLock { ctx, .. } => ctx,
            Command::Commit { ctx, .. } => ctx,
            Command::Cleanup { ctx, .. } => ctx,
            Command::Rollback { ctx, .. } => ctx,
            Command::PessimisticRollback { ctx, .. } => ctx,
            Command::TxnHeartBeat { ctx, .. } => ctx,
            Command::ScanLock { ctx, .. } => ctx,
            Command::ResolveLock { ctx, .. } => ctx,
            Command::ResolveLockLite { ctx, .. } => ctx,
            Command::Pause { ctx, .. } => ctx,
            Command::MvccByKey { ctx, .. } => ctx,
            Command::MvccByStartTs { ctx, .. } => ctx,
        }
    }

    /// The command with another context and everything else unchanged.
    pub open spec fn with_context(self, c: Context) -> Command {
        match self {
            Command::Prewrite { ctx, mutations, primary, start_ts, options } => Command::Prewrite {
                ctx: c,
                mutations,
                primary,
                start_ts,
                options,
            },
            Command::AcquirePessimisticLock {
                ctx,
                keys,
                primary,
                start_ts,
                options,
            } => Command::AcquirePessimisticLock { ctx: c, keys, primary, start_ts, options },
            Command::Commit { ctx, keys, lock_ts, commit_ts } => Command::Commit {
                ctx: c,
                keys,
                lock_ts,
                commit_ts,
            },
            Command::Cleanup { ctx, key, start_ts, current_ts } => Command::Cleanup {
                ctx: c,
                key,
                start_ts,
                current_ts,
            },
            Command::Rollback { ctx, keys, start_ts } => Command::Rollback { ctx: c, keys, start_ts },
            Command::PessimisticRollback {
                ctx,
                keys,
                start_ts,
                for_update_ts,
            } => Command::PessimisticRollback { ctx: c, keys, start_ts, for_update_ts },
            Command::TxnHeartBeat { ctx, primary_key, start_ts, advise_ttl } => Command::TxnHeartBeat {
                ctx: c,
                primary_key,
                start_ts,
                advise_ttl,
            },
            Command::ScanLock { ctx, max_ts, start_key, limit } => Command::ScanLock {
                ctx: c,
                max_ts,
                start_key,
                limit,
            },
            Command::ResolveLock { ctx, txn_status, scan_key, key_locks } => Command::ResolveLock {
                ctx: c,
                txn_status,
                scan_key,
                key_locks,
            },
            Command::ResolveLockLite {
                ctx,
                start_ts,
                commit_ts,
                resolve_keys,
            } => Command::ResolveLockLite { ctx: c, start_ts, commit_ts, resolve_keys },
            Command::Pause { ctx, duration } => Command::Pause { ctx: c, duration },
            Command::MvccByKey { ctx, key } => Command::MvccByKey { ctx: c, key },
            Command::MvccByStartTs { ctx, start_ts } => Command::MvccByStartTs { ctx: c, start_ts },
        }
    }

    /// The timestamp under which the command is filed: the start timestamp
    /// of its transaction where it has one.
    pub open spec fn spec_ts(&self) -> u64 {
        match *self {
            Command::Prewrite { start_ts, .. } => start_ts,
            Command::AcquirePessimisticLock { start_ts, .. } => start_ts,
            Command::Commit { lock_ts, .. } => lock_ts,
            Command::Cleanup { start_ts, .. } => start_ts,
            Command::Rollback { start_ts, .. } => start_ts,
            Command::PessimisticRollback { start_ts, .. } => start_ts,
            Command::TxnHeartBeat { start_ts, .. } => start_ts,
            Command::ScanLock { max_ts, .. } => max_ts,
            Command::ResolveLock { .. } => 0,
            Command::ResolveLockLite { start_ts, .. } => start_ts,
            Command::Pause { .. } => 0,
            Command::MvccByKey { .. } => 0,
            Command::MvccByStartTs { start_ts, .. } => start_ts,
        }
    }

    /// Whether the command only reads. A command that resolves locks reads
    /// as long as it has no locks in hand: it then scans for some.
    pub open spec fn spec_readonly(&self) -> bool {
        match *self {
            Command::ScanLock { .. } => true,
            Command::MvccByKey { .. } => true,
            Command::MvccByStartTs { .. } => true,
            Command::ResolveLock { key_locks, .. } => key_locks@.len() == 0,
            _ => false,
        }
    }

    pub open spec fn spec_tag(&self) -> Seq<char> {
        match *self {
            Command::Prewrite { .. } => "prewrite"@,
            Command::AcquirePessimisticLock { .. } => "acquire_pessimistic_lock"@,
            Command::Commit { .. } => "commit"@,
            Command::Cleanup { .. } => "cleanup"@,
            Command::Rollback { .. } => "rollback"@,
            Command::PessimisticRollback { .. } => "pessimistic_rollback"@,
            Command::TxnHeartBeat { .. } => "txn_heart_beat"@,
            Command::ScanLock { .. } => "scan_lock"@,
            Command::ResolveLock { .. } => "resolve_lock"@,
            Command::ResolveLockLite { .. } => "resolve_lock_lite"@,
            Command::Pause { .. } => "pause"@,
            Command::MvccByKey { .. } => "key_mvcc"@,
            Command::MvccByStartTs { .. } => "start_ts_mvcc"@,
        }
    }

    /// How long the worker is held up before the command is run, in
    /// milliseconds: only a pause holds it up.
    pub open spec fn spec_pause_duration(&self) -> Option<u64> {
        match *self {
            Command::Pause { duration, .. } => Some(duration),
            _ => None,
        }
    }

    pub fn get_context(&self) -> (r: &Context)
        ensures
            *r == self.spec_context(),
    {
        match self {
            Command::Prewrite { ctx, .. } => ctx,
            Command::AcquirePessimisticLock { ctx, .. } => ctx,
            Command::Commit { ctx, .. } => ctx,
            Command::Cleanup { ctx, .. } => ctx,
            Command::Rollback { ctx, .. } => ctx,
            Command::PessimisticRollback { ctx, .. } => ctx,
            Command::TxnHeartBeat { ctx, .. } => ctx,
            Command::ScanLock { ctx, .. } => ctx,
            Command::ResolveLock { ctx, .. } => ctx,
            Command::ResolveLockLite { ctx, .. } => ctx,
            Command::Pause { ctx, .. } => ctx,
            Command::MvccByKey { ctx, .. } => ctx,
            Command::MvccByStartTs { ctx, .. } => ctx,
        }
    }

    /// Sets the raft term in the command's context.
    pub fn set_term(&mut self, term: u64)
        ensures
            *final(self) == old(self).with_context(Context { term, ..old(self).spec_context() }),
    {
        match self {
            Command::Prewrite { ctx, .. } => ctx.set_term(term),
            Command::AcquirePessimisticLock { ctx, .. } => ctx.set_term(term),
            Command::Commit { ctx, .. } => ctx.set_term(term),
            Command::Cleanup { ctx, .. } => ctx.set_term(term),
            Command::Rollback { ctx, .. } => ctx.set_term(term),
            Command::PessimisticRollback { ctx, .. } => ctx.set_term(term),
            Command::TxnHeartBeat { ctx, .. } => ctx.set_term(term),
            Command::ScanLock { ctx, .. } => ctx.set_term(term),
            Command::ResolveLock { ctx, .. } => ctx.set_term(term),
            Command::ResolveLockLite { ctx, .. } => ctx.set_term(term),
            Command::Pause { ctx, .. } => ctx.set_term(term),
            Command::MvccByKey { ctx, .. } => ctx.set_term(term),
            Command::MvccByStartTs { ctx, .. } => ctx.set_term(term),
        }
    }

    pub fn priority(&self) -> (r: CommandPri)
        ensures
            r == self.spec_context().priority,
    {
        self.get_context().priority
    }

    #[verifier::when_used_as_spec(spec_ts)]
    pub fn ts(&self) -> (r: u64)
        ensures
            r == self.spec_ts(),
    {
        match self {
            Command::Prewrite { start_ts, .. } => *start_ts,
            Command::AcquirePessimisticLock { start_ts, .. } => *start_ts,
            Command::Commit { lock_ts, .. } => *lock_ts,
            Command::Cleanup { start_ts, .. } => *start_ts,
            Command::Rollback { start_ts, .. } => *start_ts,
            Command::PessimisticRollback { start_ts, .. } => *start_ts,
            Command::TxnHeartBeat { start_ts, .. } => *start_ts,
            Command::ScanLock { max_ts, .. } => *max_ts,
            Command::ResolveLock { .. } => 0,
            Command::ResolveLockLite { start_ts, .. } => *start_ts,
            Command::Pause { .. } => 0,
            Command::MvccByKey { .. } => 0,
            Command::MvccByStartTs { start_ts, .. } => *start_ts,
        }
    }

    #[verifier::when_used_as_spec(spec_readonly)]
    pub fn readonly(&self) -> (r: bool)
        ensures
            r == self.spec_readonly(),
    {
        match self {
            Command::ScanLock { .. } => true,
            Command::MvccByKey { .. } => true,
            Command::MvccByStartTs { .. } => true,
            Command::ResolveLock { key_locks, .. } => key_locks.len() == 0,
            _ => false,
        }
    }

    /// A static name of the command's kind, for metrics.
    pub fn tag(&self) -> (r: &'static str)
        ensures
            r@ == self.spec_tag(),
    {
        match self {
            Command::Prewrite { .. } => "prewrite",
            Command::AcquirePessimisticLock { .. } => "acquire_pessimistic_lock",
            Command::Commit { .. } => "commit",
            Command::Cleanup { .. } => "cleanup",
            Command::Rollback { .. } => "rollback",
            Command::PessimisticRollback { .. } => "pessimistic_rollback",
            Command::TxnHeartBeat { .. } => "txn_heart_beat",
            Command::ScanLock { .. } => "scan_lock",
            Command::ResolveLock { .. } => "resolve_lock",
            Command::ResolveLockLite { .. } => "resolve_lock_lite",
            Command::Pause { .. } => "pause",
            Command::MvccByKey { .. } => "key_mvcc",
            Command::MvccByStartTs { .. } => "start_ts_mvcc",
        }
    }

    #[verifier::when_used_as_spec(spec_pause_duration)]
    pub fn pause_duration(&self) -> (r: Option<u64>)
        ensures
            r == self.spec_pause_duration(),
    {
        match self {
            Command::Pause { duration, .. } => Some(*duration),
            _ => None,
        }
    }
}

} // verus!
