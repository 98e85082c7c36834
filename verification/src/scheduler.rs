//! What a command yields, and the messages that report it to the
//! scheduler.

use vstd::prelude::*;
use crate::command::{Command, LockInfo, MvccInfo};
use crate::errors::{Error, StorageError, StorageResult};
use crate::kv::{Context, EngineError, Key, Modify};
use crate::lock_manager::Lock;

verus! {

/// Process result of a command.
#[allow(inconsistent_fields)]
#[derive(Clone, Debug, PartialEq, Eq)]
pub enum ProcessResult {
    Res,
    MultiRes { results: Vec<StorageResult<()>> },
    MvccKey { mvcc: MvccInfo },
    MvccStartTs { mvcc: Option<(Key, MvccInfo)> },
    Locks { locks: Vec<LockInfo> },
    TxnStatus { lock_ttl: u64, commit_ts: u64 },
    /// The command is not done: the scheduler runs `cmd` next.
    NextCommand { cmd: Command },
    Failed { err: StorageError },
}

/// What a write command hands to the executor: the modifications to
/// persist and the result to deliver once they are written.
#[derive(Clone, Debug, PartialEq, Eq)]
pub struct WriteResult {
    pub ctx: Context,
    /// Empty where there is nothing to persist.
    pub to_be_write: Vec<Modify>,
    /// Number of keys the command handled, for metrics.
    pub rows: usize,
    pub pr: ProcessResult,
    /// The lock to wait for, with the flag "first lock of the transaction"
    /// and the wait timeout. Present if and only if a pessimistic lock
    /// acquisition met a lock.
    pub lock_info: Option<(Lock, bool, i64)>,
}

impl WriteResult {
    /// A command that has to wait for a lock persists nothing.
    pub open spec fn wf(&self) -> bool {
        self.lock_info is Some ==> self.to_be_write@.len() == 0 && self.rows == 0
    }
}

/// Message to the scheduler.
#[derive(Debug, PartialEq, Eq)]
pub enum Msg {
    ReadFinished { cid: u64, pr: ProcessResult, tag: &'static str },
    WriteFinished { cid: u64, pr: ProcessResult, result: Result<(), EngineError>, tag: &'static str },
    FinishedWithErr { cid: u64, err: Error, tag: &'static str },
    WaitForLock { cid: u64, start_ts: u64, pr: ProcessResult, lock: Lock, is_first_lock: bool, wait_timeout: i64 },
}

impl Msg {
    /// The command that the message is about.
    pub open spec fn spec_cid(&self) -> u64 {
        match *self {
            Msg::ReadFinished { cid, .. } => cid,
            Msg::WriteFinished { cid, .. } => cid,
            Msg::FinishedWithErr { cid, .. } => cid,
            Msg::WaitForLock { cid, .. } => cid,
        }
    }

    /// Whether the message ends the execution of its command.
    pub open spec fn spec_is_terminal(&self) -> bool {
        !(*self is WaitForLock)
    }

    #[verifier::when_used_as_spec(spec_cid)]
    pub fn cid(&self) -> (r: u64)
        ensures
            r == self.spec_cid(),
    {
        match self {
            Msg::ReadFinished { cid, .. } => *cid,
            Msg::WriteFinished { cid, .. } => *cid,
            Msg::FinishedWithErr { cid, .. } => *cid,
            Msg::WaitForLock { cid, .. } => *cid,
        }
    }

    #[verifier::when_used_as_spec(spec_is_terminal)]
    pub fn is_terminal(&self) -> (r: bool)
        ensures
            r == self.spec_is_terminal(),
    {
        match self {
            Msg::WaitForLock { .. } => false,
            _ => true,
        }
    }
}

/// The receiving end of the scheduler's message queue.
pub trait MsgScheduler: Clone + Send + 'static {
    fn on_msg(&self, task: Msg);
}

} // verus!
