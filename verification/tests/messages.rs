//! The messages that report a command to the scheduler.

use std::sync::{Arc, Mutex};

use txn_executor::errors::{Error, StorageError};
use txn_executor::executor::{
    async_write_failed, read_finished, snapshot_failed, write_action, PendingWrite, WriteAction,
};
use txn_executor::kv::{Cf, Context, EngineError, Modify};
use txn_executor::lock_manager::Lock;
use txn_executor::mvcc::MvccError;
use txn_executor::effects::{notify_scheduler, Effects};
use txn_executor::scheduler::{Msg, MsgScheduler, ProcessResult, WriteResult};

fn ctx() -> Context {
    Context::new(4)
}

fn batch() -> Vec<Modify> {
    vec![Modify::Delete(Cf::Lock, b"k".to_vec()), Modify::DeleteRange(Cf::Write, b"a".to_vec(), b"b".to_vec(), false)]
}

#[test]
fn a_failed_write_is_finished_with_err() {
    let err = Error::Mvcc(MvccError::Committed { commit_ts: 3 });
    assert_eq!(
        write_action(5, 100, "commit", Err(err.clone())),
        WriteAction::Post(Msg::FinishedWithErr { cid: 5, err, tag: "commit" })
    );
}

#[test]
fn a_write_that_waits_is_parked() {
    let conflict = Err(StorageError::Txn(Error::Mvcc(MvccError::KeyIsLocked {
        key: b"k1".to_vec(),
        primary: b"k1".to_vec(),
        ts: 150,
        ttl: 1,
    })));
    let wr = WriteResult {
        ctx: ctx(),
        to_be_write: vec![],
        rows: 0,
        pr: ProcessResult::MultiRes { results: vec![conflict.clone()] },
        lock_info: Some((Lock { ts: 150, key: b"k1".to_vec() }, true, 1000)),
    };
    let action = write_action(5, 200, "acquire_pessimistic_lock", Ok(wr));
    assert_eq!(
        action,
        WriteAction::Post(Msg::WaitForLock {
            cid: 5,
            start_ts: 200,
            pr: ProcessResult::MultiRes { results: vec![conflict] },
            lock: Lock { ts: 150, key: b"k1".to_vec() },
            is_first_lock: true,
            wait_timeout: 1000,
        })
    );
}

#[test]
fn an_empty_write_is_finished_without_the_engine() {
    let wr = WriteResult {
        ctx: ctx(),
        to_be_write: vec![],
        rows: 3,
        pr: ProcessResult::TxnStatus { lock_ttl: 7, commit_ts: 0 },
        lock_info: None,
    };
    assert_eq!(
        write_action(5, 100, "txn_heart_beat", Ok(wr)),
        WriteAction::Post(Msg::WriteFinished {
            cid: 5,
            pr: ProcessResult::TxnStatus { lock_ttl: 7, commit_ts: 0 },
            result: Ok(()),
            tag: "txn_heart_beat",
        })
    );
}

#[test]
fn a_write_with_modifications_goes_to_the_engine() {
    let wr = WriteResult { ctx: ctx(), to_be_write: batch(), rows: 2, pr: ProcessResult::Res, lock_info: None };
    let action = write_action(5, 100, "rollback", Ok(wr));
    assert_eq!(
        action,
        WriteAction::Persist {
            ctx: ctx(),
            to_be_write: batch(),
            pending: PendingWrite { cid: 5, pr: ProcessResult::Res, tag: "rollback", rows: 2 },
        }
    );
    if let WriteAction::Persist { pending, .. } = action {
        assert_eq!(
            pending.finished(Err(EngineError::Timeout)),
            Msg::WriteFinished { cid: 5, pr: ProcessResult::Res, result: Err(EngineError::Timeout), tag: "rollback" }
        );
    }
    let pending = PendingWrite { cid: 6, pr: ProcessResult::Res, tag: "commit", rows: 1 };
    assert_eq!(
        pending.finished(Ok(())),
        Msg::WriteFinished { cid: 6, pr: ProcessResult::Res, result: Ok(()), tag: "commit" }
    );
}

#[test]
fn engine_and_snapshot_failures_are_finished_with_err() {
    assert_eq!(
        async_write_failed(5, "commit", EngineError::EmptyRequest),
        Msg::FinishedWithErr { cid: 5, err: Error::Engine(EngineError::EmptyRequest), tag: "commit" }
    );
    assert_eq!(
        snapshot_failed(6, "scan_lock", EngineError::Other { message: "gone".to_string() }),
        Msg::FinishedWithErr {
            cid: 6,
            err: Error::Engine(EngineError::Other { message: "gone".to_string() }),
            tag: "scan_lock",
        }
    );
}

#[test]
fn a_read_is_finished_with_its_result_or_its_failure() {
    assert_eq!(
        read_finished(5, "scan_lock", Ok(ProcessResult::Locks { locks: vec![] })),
        Msg::ReadFinished { cid: 5, pr: ProcessResult::Locks { locks: vec![] }, tag: "scan_lock" }
    );
    let err = Error::Mvcc(MvccError::Other { message: "bad".to_string() });
    assert_eq!(
        read_finished(5, "key_mvcc", Err(err.clone())),
        Msg::ReadFinished { cid: 5, pr: ProcessResult::Failed { err: StorageError::Txn(err) }, tag: "key_mvcc" }
    );
}

#[test]
fn messages_name_their_command_and_tell_whether_they_end_it() {
    let msgs = vec![
        (Msg::ReadFinished { cid: 1, pr: ProcessResult::Res, tag: "t" }, 1, true),
        (Msg::WriteFinished { cid: 2, pr: ProcessResult::Res, result: Ok(()), tag: "t" }, 2, true),
        (Msg::FinishedWithErr { cid: 3, err: Error::InvalidTxnTso { start_ts: 1, commit_ts: 1 }, tag: "t" }, 3, true),
        (
            Msg::WaitForLock {
                cid: 4,
                start_ts: 1,
                pr: ProcessResult::Res,
                lock: Lock { ts: 1, key: vec![] },
                is_first_lock: false,
                wait_timeout: 0,
            },
            4,
            false,
        ),
    ];
    for (msg, cid, terminal) in msgs {
        assert_eq!(msg.cid(), cid);
        assert_eq!(msg.is_terminal(), terminal);
    }
}

#[derive(Clone, Default)]
struct Inbox {
    msgs: Arc<Mutex<Vec<Msg>>>,
}

impl MsgScheduler for Inbox {
    fn on_msg(&self, task: Msg) {
        self.msgs.lock().unwrap().push(task);
    }
}

#[test]
fn notify_scheduler_posts_the_message() {
    let inbox = Inbox::default();
    notify_scheduler(inbox.clone(), Msg::ReadFinished { cid: 1, pr: ProcessResult::Res, tag: "t" }, &mut Effects::new());
    notify_scheduler(inbox.clone(), Msg::ReadFinished { cid: 2, pr: ProcessResult::Res, tag: "t" }, &mut Effects::new());
    assert_eq!(
        *inbox.msgs.lock().unwrap(),
        vec![
            Msg::ReadFinished { cid: 1, pr: ProcessResult::Res, tag: "t" },
            Msg::ReadFinished { cid: 2, pr: ProcessResult::Res, tag: "t" },
        ]
    );
}

#[test]
fn only_key_is_locked_is_a_lock_conflict() {
    let locked = MvccError::KeyIsLocked { key: b"k".to_vec(), primary: b"p".to_vec(), ts: 1, ttl: 2 };
    assert!(locked.is_key_locked());
    let others = vec![
        MvccError::WriteConflict { start_ts: 1, conflict_start_ts: 2, conflict_commit_ts: 3, key: b"k".to_vec() },
        MvccError::TxnLockNotFound { start_ts: 1, commit_ts: 2, key: b"k".to_vec() },
        MvccError::Committed { commit_ts: 1 },
        MvccError::AlreadyExist { key: b"k".to_vec() },
        MvccError::Engine(EngineError::Timeout),
        MvccError::Other { message: "other".to_string() },
    ];
    for e in others {
        assert!(!e.is_key_locked());
    }
}
