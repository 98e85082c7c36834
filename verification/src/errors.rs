//! Errors that cross the boundary of the executor.

use vstd::prelude::*;
use crate::kv::EngineError;
use crate::mvcc::MvccError;

verus! {

/// Failure of a transactional command.
#[derive(Clone, Debug, PartialEq, Eq)]
pub enum Error {
    Engine(EngineError),
    Mvcc(MvccError),
    /// A commit timestamp that is not after the start timestamp.
    InvalidTxnTso { start_ts: u64, commit_ts: u64 },
}

/// Failure as the storage layer reports it to its users.
#[derive(Clone, Debug, PartialEq, Eq)]
pub enum StorageError {
    Engine(EngineError),
    Txn(Error),
}

pub type StorageResult<T> = Result<T, StorageError>;

impl MvccError {
    pub open spec fn spec_is_key_locked(&self) -> bool {
        *self is KeyIsLocked
    }

    /// Whether the error reports a lock held by another transaction.
    #[verifier::when_used_as_spec(spec_is_key_locked)]
    pub fn is_key_locked(&self) -> (r: bool)
        ensures
            r == self.spec_is_key_locked(),
    {
        match self {
            MvccError::KeyIsLocked { .. } => true,
            _ => false,
        }
    }
}

/// The per-key entry under which a lock conflict is reported to the user.
pub open spec fn locked_entry(e: MvccError) -> StorageResult<()> {
    Err(StorageError::Txn(Error::Mvcc(e)))
}

/// Whether a per-key entry reports a lock conflict.
pub open spec fn is_locked_entry(entry: StorageResult<()>) -> bool {
    match entry {
        Err(StorageError::Txn(Error::Mvcc(MvccError::KeyIsLocked { .. }))) => true,
        _ => false,
    }
}

/// Start timestamp of the transaction that holds the lock which the entry
/// reports.
pub open spec fn locked_entry_ts(entry: StorageResult<()>) -> u64 {
    match entry {
        Err(StorageError::Txn(Error::Mvcc(MvccError::KeyIsLocked { ts, .. }))) => ts,
        _ => 0,
    }
}

/// The key on which the entry reports a lock.
pub open spec fn locked_entry_key(entry: StorageResult<()>) -> Seq<u8> {
    match entry {
        Err(StorageError::Txn(Error::Mvcc(MvccError::KeyIsLocked { key, .. }))) => key@,
        _ => Seq::empty(),
    }
}

} // verus!
