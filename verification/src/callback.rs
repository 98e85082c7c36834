//! Delivery of the result of a command to the callback of its user.
//!
//! Each kind of callback takes one kind of result, or a failure. Invoking
//! the callback is left to the caller: this module decides what it is
//! invoked with.

use vstd::prelude::*;
use crate::command::{LockInfo, MvccInfo};
use crate::errors::StorageResult;
use crate::kv::Key;
use crate::scheduler::ProcessResult;

verus! {

/// The kinds of callback that a user of the storage can leave.
#[derive(Clone, Copy, Debug, PartialEq, Eq)]
pub enum CallbackKind {
    Boolean,
    Booleans,
    MvccInfoByKey,
    MvccInfoByStartTs,
    Locks,
    TxnStatus,
}

/// What a callback is invoked with, by the kind of the callback.
#[allow(inconsistent_fields)]
#[derive(Debug, PartialEq, Eq)]
pub enum Delivery {
    Boolean(StorageResult<()>),
    Booleans(StorageResult<Vec<StorageResult<()>>>),
    MvccInfoByKey(StorageResult<MvccInfo>),
    MvccInfoByStartTs(StorageResult<Option<(Key, MvccInfo)>>),
    Locks(StorageResult<Vec<LockInfo>>),
    /// The time to live of the lock and the commit timestamp.
    TxnStatus(StorageResult<(u64, u64)>),
}

impl Delivery {
    /// The kind of callback that takes the delivery.
    pub open spec fn spec_kind(&self) -> CallbackKind {
        match *self {
            Delivery::Boolean(_) => CallbackKind::Boolean,
            Delivery::Booleans(_) => CallbackKind::Booleans,
            Delivery::MvccInfoByKey(_) => CallbackKind::MvccInfoByKey,
            Delivery::MvccInfoByStartTs(_) => CallbackKind::MvccInfoByStartTs,
            Delivery::Locks(_) => CallbackKind::Locks,
            Delivery::TxnStatus(_) => CallbackKind::TxnStatus,
        }
    }

    /// The result of a command that the delivery was made from.
    pub open spec fn process_result(self) -> ProcessResult {
        match self {
            Delivery::Boolean(Ok(_)) => ProcessResult::Res,
            Delivery::Boolean(Err(err)) => ProcessResult::Failed { err },
            Delivery::Booleans(Ok(results)) => ProcessResult::MultiRes { results },
            Delivery::Booleans(Err(err)) => ProcessResult::Failed { err },
            Delivery::MvccInfoByKey(Ok(mvcc)) => ProcessResult::MvccKey { mvcc },
            Delivery::MvccInfoByKey(Err(err)) => ProcessResult::Failed { err },
            Delivery::MvccInfoByStartTs(Ok(mvcc)) => ProcessResult::MvccStartTs { mvcc },
            Delivery::MvccInfoByStartTs(Err(err)) => ProcessResult::Failed { err },
            Delivery::Locks(Ok(locks)) => ProcessResult::Locks { locks },
            Delivery::Locks(Err(err)) => ProcessResult::Failed { err },
            Delivery::TxnStatus(Ok(status)) => ProcessResult::TxnStatus { lock_ttl: status.0, commit_ts: status.1 },
            Delivery::TxnStatus(Err(err)) => ProcessResult::Failed { err },
        }
    }

    #[verifier::when_used_as_spec(spec_kind)]
    pub fn kind(&self) -> (r: CallbackKind)
        ensures
            r == self.spec_kind(),
    {
        match self {
            Delivery::Boolean(_) => CallbackKind::Boolean,
            Delivery::Booleans(_) => CallbackKind::Booleans,
            Delivery::MvccInfoByKey(_) => CallbackKind::MvccInfoByKey,
            Delivery::MvccInfoByStartTs(_) => CallbackKind::MvccInfoByStartTs,
            Delivery::Locks(_) => CallbackKind::Locks,
            Delivery::TxnStatus(_) => CallbackKind::TxnStatus,
        }
    }
}

/// The kind of callback that takes a result, if any does: a failure goes
/// to every kind, and a continuation to none, as the scheduler runs it.
pub open spec fn taker(pr: &ProcessResult) -> Option<CallbackKind> {
    match *pr {
        ProcessResult::Res => Some(CallbackKind::Boolean),
        ProcessResult::MultiRes { .. } => Some(CallbackKind::Booleans),
        ProcessResult::MvccKey { .. } => Some(CallbackKind::MvccInfoByKey),
        ProcessResult::MvccStartTs { .. } => Some(CallbackKind::MvccInfoByStartTs),
        ProcessResult::Locks { .. } => Some(CallbackKind::Locks),
        ProcessResult::TxnStatus { .. } => Some(CallbackKind::TxnStatus),
        ProcessResult::NextCommand { .. } => None,
        ProcessResult::Failed { .. } => None,
    }
}

/// Whether a callback of this kind takes the result.
pub open spec fn spec_accepts(callback: CallbackKind, pr: &ProcessResult) -> bool {
    *pr is Failed || taker(pr) == Some(callback)
}

#[verifier::when_used_as_spec(spec_accepts)]
pub fn accepts(callback: CallbackKind, pr: &ProcessResult) -> (r: bool)
    ensures
        r == spec_accepts(callback, pr),
{
    match pr {
        ProcessResult::Failed { .. } => true,
        ProcessResult::Res => match callback {
            CallbackKind::Boolean => true,
            _ => false,
        },
        ProcessResult::MultiRes { .. } => match callback {
            CallbackKind::Booleans => true,
            _ => false,
        },
        ProcessResult::MvccKey { .. } => match callback {
            CallbackKind::MvccInfoByKey => true,
            _ => false,
        },
        ProcessResult::MvccStartTs { .. } => match callback {
            CallbackKind::MvccInfoByStartTs => true,
            _ => false,
        },
        ProcessResult::Locks { .. } => match callback {
            CallbackKind::Locks => true,
            _ => false,
        },
        ProcessResult::TxnStatus { .. } => match callback {
            CallbackKind::TxnStatus => true,
            _ => false,
        },
        ProcessResult::NextCommand { .. } => false,
    }
}

/// What a callback of this kind is invoked with for a result that it
/// takes: the payload of the result, or the failure. A continuation is
/// delivered to no callback.
pub open spec fn spec_execute_callback(callback: CallbackKind, pr: ProcessResult) -> Delivery {
    match pr {
        ProcessResult::Res => Delivery::Boolean(Ok(())),
        ProcessResult::MultiRes { results } => Delivery::Booleans(Ok(results)),
        ProcessResult::MvccKey { mvcc } => Delivery::MvccInfoByKey(Ok(mvcc)),
        ProcessResult::MvccStartTs { mvcc } => Delivery::MvccInfoByStartTs(Ok(mvcc)),
        ProcessResult::Locks { locks } => Delivery::Locks(Ok(locks)),
        ProcessResult::TxnStatus { lock_ttl, commit_ts } => Delivery::TxnStatus(Ok((lock_ttl, commit_ts))),
        ProcessResult::Failed { err } => match callback {
            CallbackKind::Boolean => Delivery::Boolean(Err(err)),
            CallbackKind::Booleans => Delivery::Booleans(Err(err)),
            CallbackKind::MvccInfoByKey => Delivery::MvccInfoByKey(Err(err)),
            CallbackKind::MvccInfoByStartTs => Delivery::MvccInfoByStartTs(Err(err)),
            CallbackKind::Locks => Delivery::Locks(Err(err)),
            CallbackKind::TxnStatus => Delivery::TxnStatus(Err(err)),
        },
        ProcessResult::NextCommand { .. } => arbitrary(),
    }
}

/// Delivers the process result of a command to the storage callback:
/// returns what a callback of this kind is to be invoked with.
///
/// The result has to be one that the callback takes. Whatever is
/// delivered can be turned back into the result it was made from.
#[verifier::when_used_as_spec(spec_execute_callback)]
pub fn execute_callback(callback: CallbackKind, pr: ProcessResult) -> (delivery: Delivery)
    requires
        spec_accepts(callback, &pr),
    ensures
        delivery == spec_execute_callback(callback, pr),
        delivery.spec_kind() == callback,
        delivery.process_result() == pr,
{
    match callback {
        CallbackKind::Boolean => match pr {
            ProcessResult::Res => Delivery::Boolean(Ok(())),
            ProcessResult::Failed { err } => Delivery::Boolean(Err(err)),
            _ => unreached(),
        },
        CallbackKind::Booleans => match pr {
            ProcessResult::MultiRes { results } => Delivery::Booleans(Ok(results)),
            ProcessResult::Failed { err } => Delivery::Booleans(Err(err)),
            _ => unreached(),
        },
        CallbackKind::MvccInfoByKey => match pr {
            ProcessResult::MvccKey { mvcc } => Delivery::MvccInfoByKey(Ok(mvcc)),
            ProcessResult::Failed { err } => Delivery::MvccInfoByKey(Err(err)),
            _ => unreached(),
        },
        CallbackKind::MvccInfoByStartTs => match pr {
            ProcessResult::MvccStartTs { mvcc } => Delivery::MvccInfoByStartTs(Ok(mvcc)),
            ProcessResult::Failed { err } => Delivery::MvccInfoByStartTs(Err(err)),
            _ => unreached(),
        },
        CallbackKind::Locks => match pr {
            ProcessResult::Locks { locks } => Delivery::Locks(Ok(locks)),
            ProcessResult::Failed { err } => Delivery::Locks(Err(err)),
            _ => unreached(),
        },
        CallbackKind::TxnStatus => match pr {
            ProcessResult::TxnStatus { lock_ttl, commit_ts } => Delivery::TxnStatus(Ok((lock_ttl, commit_ts))),
            ProcessResult::Failed { err } => Delivery::TxnStatus(Err(err)),
            _ => unreached(),
        },
    }
}

/// Delivers the process result of a command to the storage callback, if
/// the callback takes it: returns what the callback is to be invoked
/// with. If it does not, nothing is delivered, the result is handed back
/// as it came, and the caller has to abort.
pub fn checked_delivery(callback: CallbackKind, pr: ProcessResult) -> (r: Result<Delivery, ProcessResult>)
    ensures
        spec_accepts(callback, &pr) ==> r == Ok::<Delivery, ProcessResult>(spec_execute_callback(callback, pr)),
        !spec_accepts(callback, &pr) ==> r == Err::<Delivery, ProcessResult>(pr),
{
    if accepts(callback, &pr) {
        Ok(execute_callback(callback, pr))
    } else {
        Err(pr)
    }
}

/// Callback dispatch round-trips on every pairing that it is meant for:
/// what is delivered is of the kind of the callback, and the result it
/// was made from can be read off it again, whatever the result holds.
pub proof fn lemma_dispatch_round_trip(callback: CallbackKind, pr: ProcessResult)
    requires
        spec_accepts(callback, &pr),
    ensures
        spec_execute_callback(callback, pr).spec_kind() == callback,
        spec_execute_callback(callback, pr).process_result() == pr,
{
}

/// Callback dispatch is total on the pairings it is meant for: each kind
/// of callback takes a failure and exactly one other kind of result, each
/// kind of result but a continuation is taken by exactly one kind of
/// callback, and a continuation by none.
pub proof fn lemma_dispatch_table(callback: CallbackKind, pr: ProcessResult)
    ensures
        spec_accepts(callback, &pr) <==> match callback {
            CallbackKind::Boolean => pr is Res || pr is Failed,
            CallbackKind::Booleans => pr is MultiRes || pr is Failed,
            CallbackKind::MvccInfoByKey => pr is MvccKey || pr is Failed,
            CallbackKind::MvccInfoByStartTs => pr is MvccStartTs || pr is Failed,
            CallbackKind::Locks => pr is Locks || pr is Failed,
            CallbackKind::TxnStatus => pr is TxnStatus || pr is Failed,
        },
        pr is NextCommand ==> !spec_accepts(callback, &pr),
        !(pr is NextCommand) ==> exists|kind: CallbackKind| spec_accepts(kind, &pr),
        !(pr is NextCommand) && !(pr is Failed) ==> forall|a: CallbackKind, b: CallbackKind|
            spec_accepts(a, &pr) && spec_accepts(b, &pr) ==> a == b,
{
    match pr {
        ProcessResult::Res => assert(spec_accepts(CallbackKind::Boolean, &pr)),
        ProcessResult::MultiRes { .. } => assert(spec_accepts(CallbackKind::Booleans, &pr)),
        ProcessResult::MvccKey { .. } => assert(spec_accepts(CallbackKind::MvccInfoByKey, &pr)),
        ProcessResult::MvccStartTs { .. } => assert(spec_accepts(CallbackKind::MvccInfoByStartTs, &pr)),
        ProcessResult::Locks { .. } => assert(spec_accepts(CallbackKind::Locks, &pr)),
        ProcessResult::TxnStatus { .. } => assert(spec_accepts(CallbackKind::TxnStatus, &pr)),
        ProcessResult::NextCommand { .. } => {},
        ProcessResult::Failed { .. } => assert(spec_accepts(CallbackKind::Boolean, &pr)),
    }
}

} // verus!
