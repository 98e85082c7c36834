//! The executor: it takes a task and the snapshot taken for it, has the
//! command processed, and reports the outcome to the scheduler, directly
//! or once the engine has written the modifications.

use vstd::prelude::*;
use crate::command::Command;
use crate::effects::{all_inward, async_write, notify_scheduler, Effect, Effects};
use crate::errors::{Error, StorageError};
use crate::kv::{CbContext, CommandPri, Context, EngineError, Modify};
use crate::lock_manager::LockMgr;
use crate::mvcc::{Snapshot, Statistics};
use crate::read::{
    lemma_read_inward,
    process_read_impl,
    read_outcome,
    spec_supports_read,
    supports_read,
};
use crate::scheduler::{Msg, MsgScheduler, ProcessResult, WriteResult};
use crate::write::{
    lemma_wake_ups_follow_work,
    process_write_impl,
    spec_write_ready,
    write_processed,
    write_ready,
};
use std::marker::PhantomData;

verus! {

/// Task is a running command.
pub struct Task {
    pub cid: u64,
    pub tag: &'static str,
    cmd: Command,
    ts: u64,
    region_id: u64,
}

impl Task {
    pub closed spec fn spec_cid(&self) -> u64 {
        self.cid
    }

    pub closed spec fn spec_tag(&self) -> &'static str {
        self.tag
    }

    pub closed spec fn spec_cmd(&self) -> Command {
        self.cmd
    }

    pub closed spec fn spec_ts(&self) -> u64 {
        self.ts
    }

    pub closed spec fn spec_region_id(&self) -> u64 {
        self.region_id
    }

    /// Creates a task for a running command.
    pub fn new(cid: u64, cmd: Command) -> (task: Task)
        ensures
            task.spec_cid() == cid,
            task.spec_tag()@ == cmd.spec_tag(),
            task.spec_cmd() == cmd,
            task.spec_ts() == cmd.spec_ts(),
            task.spec_region_id() == cmd.spec_context().region_id,
    {
        Task { cid, tag: cmd.tag(), region_id: cmd.get_context().region_id, ts: cmd.ts(), cmd }
    }

    /// The command id under which the scheduler knows the task.
    pub fn cid(&self) -> (r: u64)
        ensures
            r == self.spec_cid(),
    {
        self.cid
    }

    /// The static name of the kind of the command, for metrics.
    pub fn tag(&self) -> (r: &'static str)
        ensures
            r == self.spec_tag(),
    {
        self.tag
    }

    pub fn cmd(&self) -> (r: &Command)
        ensures
            *r == self.spec_cmd(),
    {
        &self.cmd
    }

    pub fn priority(&self) -> (r: CommandPri)
        ensures
            r == self.spec_cmd().spec_context().priority,
    {
        self.cmd.priority()
    }

    pub fn context(&self) -> (r: &Context)
        ensures
            *r == self.spec_cmd().spec_context(),
    {
        self.cmd.get_context()
    }

    /// The timestamp of the command, as it was when the task was created.
    #[verifier::when_used_as_spec(spec_ts)]
    pub fn ts(&self) -> (r: u64)
        ensures
            r == self.spec_ts(),
    {
        self.ts
    }

    /// The region of the command, as it was when the task was created.
    #[verifier::when_used_as_spec(spec_region_id)]
    pub fn region_id(&self) -> (r: u64)
        ensures
            r == self.spec_region_id(),
    {
        self.region_id
    }
}

/// The message that reports the end of a read command: the result of the
/// command, or its failure as a result.
pub open spec fn spec_read_finished(cid: u64, tag: &'static str, result: Result<ProcessResult, Error>) -> Msg {
    Msg::ReadFinished {
        cid,
        pr: match result {
            Ok(pr) => pr,
            Err(e) => ProcessResult::Failed { err: StorageError::Txn(e) },
        },
        tag,
    }
}

#[verifier::when_used_as_spec(spec_read_finished)]
pub fn read_finished(cid: u64, tag: &'static str, result: Result<ProcessResult, Error>) -> (msg: Msg)
    ensures
        msg == spec_read_finished(cid, tag, result),
{
    let pr = match result {
        Ok(pr) => pr,
        Err(e) => ProcessResult::Failed { err: StorageError::Txn(e) },
    };
    Msg::ReadFinished { cid, pr, tag }
}

/// What is left to report of a write command once the engine has written
/// its modifications.
#[derive(Debug, PartialEq, Eq)]
pub struct PendingWrite {
    pub cid: u64,
    pub pr: ProcessResult,
    pub tag: &'static str,
    /// Number of keys the command handled, for metrics.
    pub rows: usize,
}

impl PendingWrite {
    /// The message that reports the end of the write: the verdict of the
    /// engine is passed on as it is.
    pub open spec fn spec_finished(self, result: Result<(), EngineError>) -> Msg {
        Msg::WriteFinished { cid: self.cid, pr: self.pr, result, tag: self.tag }
    }

    #[verifier::when_used_as_spec(spec_finished)]
    pub fn finished(self, result: Result<(), EngineError>) -> (msg: Msg)
        ensures
            msg == self.spec_finished(result),
    {
        Msg::WriteFinished { cid: self.cid, pr: self.pr, result, tag: self.tag }
    }
}

/// What the executor does with the outcome of a write command.
#[derive(Debug, PartialEq, Eq)]
pub enum WriteAction {
    /// Post the message; the engine is not called.
    Post(Msg),
    /// Hand the modifications to the engine, and report `pending` when
    /// the engine is done.
    Persist { ctx: Context, to_be_write: Vec<Modify>, pending: PendingWrite },
}

/// The four ways on from a write command: a failed command is reported as
/// failed; a command that has to wait for a lock is parked; a command with
/// nothing to persist is reported as written; any other goes to the
/// engine.
pub open spec fn spec_write_action(
    cid: u64,
    ts: u64,
    tag: &'static str,
    result: Result<WriteResult, Error>,
) -> WriteAction {
    match result {
        Err(err) => WriteAction::Post(Msg::FinishedWithErr { cid, err, tag }),
        Ok(wr) => match wr.lock_info {
            Some(lock_info) => WriteAction::Post(
                Msg::WaitForLock {
                    cid,
                    start_ts: ts,
                    pr: wr.pr,
                    lock: lock_info.0,
                    is_first_lock: lock_info.1,
                    wait_timeout: lock_info.2,
                },
            ),
            None => if wr.to_be_write@.len() == 0 {
                WriteAction::Post(Msg::WriteFinished { cid, pr: wr.pr, result: Ok(()), tag })
            } else {
                WriteAction::Persist {
                    ctx: wr.ctx,
                    to_be_write: wr.to_be_write,
                    pending: PendingWrite { cid, pr: wr.pr, tag, rows: wr.rows },
                }
            },
        },
    }
}

#[verifier::when_used_as_spec(spec_write_action)]
pub fn write_action(cid: u64, ts: u64, tag: &'static str, result: Result<WriteResult, Error>) -> (action:
    WriteAction)
    ensures
        action == spec_write_action(cid, ts, tag, result),
        result is Ok && result->Ok_0.lock_info is None && result->Ok_0.to_be_write@.len() == 0 ==> action
            == WriteAction::Post(Msg::WriteFinished { cid, pr: result->Ok_0.pr, result: Ok(()), tag }),
{
    match result {
        Err(err) => WriteAction::Post(Msg::FinishedWithErr { cid, err, tag }),
        Ok(wr) => {
            let WriteResult { ctx, to_be_write, rows, pr, lock_info } = wr;
            match lock_info {
                Some(lock_info) => {
                    let (lock, is_first_lock, wait_timeout) = lock_info;
                    WriteAction::Post(Msg::WaitForLock { cid, start_ts: ts, pr, lock, is_first_lock, wait_timeout })
                },
                None => {
                    if to_be_write.len() == 0 {
                        WriteAction::Post(Msg::WriteFinished { cid, pr, result: Ok(()), tag })
                    } else {
                        WriteAction::Persist { ctx, to_be_write, pending: PendingWrite { cid, pr, tag, rows } }
                    }
                },
            }
        },
    }
}

/// The message that reports that the engine refused a write outright.
pub open spec fn spec_async_write_failed(cid: u64, tag: &'static str, err: EngineError) -> Msg {
    Msg::FinishedWithErr { cid, err: Error::Engine(err), tag }
}

#[verifier::when_used_as_spec(spec_async_write_failed)]
pub fn async_write_failed(cid: u64, tag: &'static str, err: EngineError) -> (msg: Msg)
    ensures
        msg == spec_async_write_failed(cid, tag, err),
{
    Msg::FinishedWithErr { cid, err: Error::Engine(err), tag }
}

/// The message that reports that no snapshot could be taken for a task.
pub open spec fn spec_snapshot_failed(cid: u64, tag: &'static str, err: EngineError) -> Msg {
    Msg::FinishedWithErr { cid, err: Error::Engine(err), tag }
}

#[verifier::when_used_as_spec(spec_snapshot_failed)]
pub fn snapshot_failed(cid: u64, tag: &'static str, err: EngineError) -> (msg: Msg)
    ensures
        msg == spec_snapshot_failed(cid, tag, err),
{
    Msg::FinishedWithErr { cid, err: Error::Engine(err), tag }
}

/// The callback that the engine invokes when a write is done. The engine
/// calls it on a thread of its own: it has to move to the worker pool
/// first, and call `complete` there.
pub struct WriteCallback<S, P> {
    scheduler: S,
    sched_pool: P,
    pending: PendingWrite,
}

impl<S: MsgScheduler, P> WriteCallback<S, P> {
    pub closed spec fn spec_pending(&self) -> PendingWrite {
        self.pending
    }

    /// The worker pool on which `complete` is to be called.
    pub fn pool(&self) -> (r: &P)
        ensures
            *r == self.spec_pool(),
    {
        &self.sched_pool
    }

    /// What is reported when the write is done.
    pub fn pending(&self) -> (r: &PendingWrite)
        ensures
            *r == self.spec_pending(),
    {
        &self.pending
    }

    /// Reports the end of the write to the scheduler. Returns the number
    /// of keys that the command handled.
    pub fn complete(self, result: Result<(), EngineError>, effects: &mut Effects) -> (rows: usize)
        ensures
            rows == self.spec_pending().rows,
            final(effects)@ == old(effects)@.push(Effect::Post { msg: self.spec_pending().spec_finished(result) }),
    {
        let rows = self.pending.rows;
        notify_scheduler(self.scheduler, self.pending.finished(result), effects);
        rows
    }

    /// The worker pool that the callback holds.
    pub closed spec fn spec_pool(&self) -> P {
        self.sched_pool
    }
}

/// The storage engine, as far as the executor needs it.
pub trait Engine: Sized {
    type Snap: Snapshot;

    /// Writes the modifications. `callback` is invoked once the write is
    /// done, unless the engine refuses the write by returning an error.
    fn async_write<S: MsgScheduler, P>(
        &self,
        ctx: &Context,
        batch: Vec<Modify>,
        callback: WriteCallback<S, P>,
    ) -> Result<(), EngineError>;
}

/// Whether a command can be run: the processor for its kind handles it,
/// it is well formed, and a pessimistic rollback has a lock manager to
/// wake.
pub open spec fn spec_runnable(cmd: &Command, has_lock_mgr: bool) -> bool {
    if cmd.spec_readonly() {
        spec_supports_read(cmd)
    } else {
        spec_write_ready(cmd) && (*cmd is PessimisticRollback ==> has_lock_mgr)
    }
}

#[verifier::when_used_as_spec(spec_runnable)]
pub fn runnable(cmd: &Command, has_lock_mgr: bool) -> (r: bool)
    ensures
        r == spec_runnable(cmd, has_lock_mgr),
{
    if cmd.readonly() {
        supports_read(cmd)
    } else {
        let pessimistic_rollback = match cmd {
            Command::PessimisticRollback { .. } => true,
            _ => false,
        };
        write_ready(cmd) && (!pessimistic_rollback || has_lock_mgr)
    }
}

/// Whether a command can be run does not depend on its context.
pub proof fn lemma_runnable_with_context(cmd: Command, ctx: Context, has_lock_mgr: bool)
    ensures
        spec_runnable(&cmd.with_context(ctx), has_lock_mgr) == spec_runnable(&cmd, has_lock_mgr),
        cmd.with_context(ctx).spec_readonly() == cmd.spec_readonly(),
{
}

/// Executor of tasks: it holds the scheduler to report to, the worker
/// pool that runs the work, and the lock manager to wake, if there is one.
pub struct Executor<E: Engine, S: MsgScheduler, L: LockMgr, P> {
    // Time consuming tasks are put to the thread pool.
    sched_pool: P,
    // When a task completes, a completion is posted to the scheduler.
    scheduler: S,
    // If the task releases some locks, the waiters for them are woken.
    lock_mgr: Option<L>,
    _phantom: PhantomData<E>,
}

/// Work for the worker pool.
pub enum Job<E: Engine, S: MsgScheduler, L: LockMgr, P> {
    /// Report that the task has failed.
    Report { scheduler: S, msg: Msg },
    /// Process the command of the task on the snapshot.
    Process { executor: Executor<E, S, L, P>, snapshot: E::Snap, task: Task },
}

impl<E: Engine, S: MsgScheduler, L: LockMgr, P: Clone> Executor<E, S, L, P> {
    pub closed spec fn spec_pool(&self) -> P {
        self.sched_pool
    }

    pub closed spec fn spec_scheduler(&self) -> S {
        self.scheduler
    }

    pub closed spec fn spec_lock_mgr(&self) -> Option<L> {
        self.lock_mgr
    }

    pub fn new(scheduler: S, pool: P, lock_mgr: Option<L>) -> (r: Self)
        ensures
            r.spec_scheduler() == scheduler,
            r.spec_pool() == pool,
            r.spec_lock_mgr() == lock_mgr,
    {
        Executor { sched_pool: pool, scheduler, lock_mgr, _phantom: PhantomData }
    }

    /// Whether the executor has a lock manager to wake.
    pub fn has_lock_mgr(&self) -> (r: bool)
        ensures
            r == self.spec_lock_mgr() is Some,
    {
        self.lock_mgr.is_some()
    }

    /// The worker pool of the executor.
    pub fn pool(&self) -> (r: &P)
        ensures
            *r == self.spec_pool(),
    {
        &self.sched_pool
    }

    /// Start the execution of the task: decides what is to be done on the
    /// worker pool, and returns the pool with the work. Nothing is
    /// processed or reported by the caller's thread.
    ///
    /// Without a snapshot the task fails, whatever its command. With one,
    /// the command has to be one that can be run; it is stamped with the
    /// term of the snapshot, if it has one, and then processed as a read
    /// or as a write.
    pub fn execute(self, cb_ctx: CbContext, snapshot: Result<E::Snap, EngineError>, task: Task) -> (r: (
        P,
        Job<E, S, L, P>,
    ))
        requires
            snapshot is Ok ==> spec_runnable(&task.spec_cmd(), self.spec_lock_mgr() is Some),
        ensures
            r.1.wf(),
            match snapshot {
                Err(err) => r.1 == (Job::<E, S, L, P>::Report {
                    scheduler: self.spec_scheduler(),
                    msg: spec_snapshot_failed(task.spec_cid(), task.spec_tag(), err),
                }) && r.0 == self.spec_pool(),
                Ok(snapshot) => {
                    &&& r.1 is Process
                    &&& r.1->executor == self
                    &&& r.1->snapshot == snapshot
                    &&& r.1->task.spec_cid() == task.spec_cid()
                    &&& r.1->task.spec_tag() == task.spec_tag()
                    &&& r.1->task.spec_ts() == task.spec_ts()
                    &&& r.1->task.spec_region_id() == task.spec_region_id()
                    &&& r.1->task.spec_cmd() == match cb_ctx.term {
                        Some(term) => task.spec_cmd().with_context(
                            Context { term, ..task.spec_cmd().spec_context() },
                        ),
                        None => task.spec_cmd(),
                    }
                },
            },
    {
        match snapshot {
            Ok(snapshot) => self.process_by_worker(cb_ctx, snapshot, task),
            Err(err) => {
                let msg = snapshot_failed(task.cid, task.tag, err);
                (self.sched_pool, Job::Report { scheduler: self.scheduler, msg })
            },
        }
    }

    /// Delivers a command to a worker thread for processing.
    fn process_by_worker(self, cb_ctx: CbContext, snapshot: E::Snap, task: Task) -> (r: (P, Job<E, S, L, P>))
        requires
            spec_runnable(&task.spec_cmd(), self.spec_lock_mgr() is Some),
        ensures
            r.1.wf(),
            r.1 is Process,
            r.1->executor == self,
            r.1->snapshot == snapshot,
            r.1->task.spec_cid() == task.spec_cid(),
            r.1->task.spec_tag() == task.spec_tag(),
            r.1->task.spec_ts() == task.spec_ts(),
            r.1->task.spec_region_id() == task.spec_region_id(),
            r.1->task.spec_cmd() == match cb_ctx.term {
                Some(term) => task.spec_cmd().with_context(Context { term, ..task.spec_cmd().spec_context() }),
                None => task.spec_cmd(),
            },
    {
        let mut task = task;
        if let Some(term) = cb_ctx.term {
            proof {
                lemma_runnable_with_context(
                    task.cmd,
                    Context { term, ..task.cmd.spec_context() },
                    self.lock_mgr is Some,
                );
            }
            task.cmd.set_term(term);
        }
        let sched_pool = self.sched_pool.clone();
        (sched_pool, Job::Process { executor: self, snapshot, task })
    }

    /// Processes a read command within a worker thread, then posts
    /// `ReadFinished` message back to the `Scheduler`.
    pub fn process_read(self, snapshot: E::Snap, task: Task, effects: &mut Effects) -> (statistics: Statistics)
        requires
            spec_supports_read(&task.spec_cmd()),
        ensures
            read_processed(task, (old(effects)@, final(effects)@), statistics),
    {
        let (msg, statistics) = read_message(snapshot, task, effects);
        let ghost asked = effects@;
        notify_scheduler(self.scheduler, msg, effects);
        proof {
            let record = (old(effects)@, effects@);
            assert(reports_read(task, (record.0, asked), msg, statistics));
            assert(record.1 == asked.push(Effect::Post { msg }));
        }
        statistics
    }

    /// Processes a write command within a worker thread, then posts either
    /// a `WriteFinished` message if successful or a `FinishedWithErr`
    /// message back to the `Scheduler`.
    pub fn process_write(self, engine: &E, snapshot: E::Snap, task: Task, effects: &mut Effects) -> (statistics:
        Statistics)
        requires
            spec_write_ready(&task.spec_cmd()),
            task.spec_cmd() is PessimisticRollback ==> self.spec_lock_mgr() is Some,
        ensures
            write_carried_out(task, self.spec_lock_mgr() is Some, (old(effects)@, final(effects)@), statistics),
    {
        let scheduler = self.scheduler;
        let (action, statistics) = write_decision(self.lock_mgr, snapshot, task, effects);
        let ghost asked = effects@;
        let ghost has_lock_mgr = self.lock_mgr is Some;
        match action {
            WriteAction::Post(msg) => {
                notify_scheduler(scheduler, msg, effects);
                proof {
                    let record = (old(effects)@, effects@);
                    assert(decides_write(task, has_lock_mgr, (record.0, asked), action, statistics));
                    assert(record.1 =~= asked + acted(action, Ok(())));
                }
            },
            // Initiates an async write operation on the storage engine,
            // there'll be a `WriteFinished` message when it finishes.
            WriteAction::Persist { ctx, to_be_write, pending } => {
                let cid = pending.cid;
                let tag = pending.tag;
                let callback = WriteCallback { scheduler: scheduler.clone(), sched_pool: self.sched_pool, pending };
                let reply = async_write(engine, &ctx, to_be_write, callback, effects);
                if let Err(e) = reply {
                    notify_scheduler(scheduler, async_write_failed(cid, tag, e), effects);
                }
                proof {
                    let record = (old(effects)@, effects@);
                    assert(decides_write(task, has_lock_mgr, (record.0, asked), action, statistics));
                    assert(record.1 =~= asked + acted(action, reply));
                }
            },
        }
        statistics
    }
}

/// Whether `msg` reports the end of the read command of the task, with
/// the result of processing the command.
pub open spec fn reports_read(
    task: Task,
    effects: (Seq<Effect>, Seq<Effect>),
    msg: Msg,
    statistics: Statistics,
) -> bool {
    exists|result: Result<ProcessResult, Error>|
        {
            &&& #[trigger] read_outcome(task.spec_cmd(), (Statistics::zero(), statistics), effects, result)
            &&& msg == spec_read_finished(task.spec_cid(), task.spec_tag(), result)
        }
}

/// Whether the read command of the task was processed and its end posted
/// to the scheduler.
pub open spec fn read_processed(task: Task, effects: (Seq<Effect>, Seq<Effect>), statistics: Statistics) -> bool {
    exists|msg: Msg, asked: Seq<Effect>|
        {
            &&& #[trigger] reports_read(task, (effects.0, asked), msg, statistics)
            &&& effects.1 == asked.push(Effect::Post { msg })
        }
}

/// Whether `action` is what the executor does with the result of
/// processing the write command of the task.
pub open spec fn decides_write(
    task: Task,
    has_lock_mgr: bool,
    effects: (Seq<Effect>, Seq<Effect>),
    action: WriteAction,
    statistics: Statistics,
) -> bool {
    exists|result: Result<WriteResult, Error>|
        {
            &&& #[trigger] write_processed(
                task.spec_cmd(),
                has_lock_mgr,
                (Statistics::zero(), statistics),
                effects,
                result,
            )
            &&& action == spec_write_action(task.spec_cid(), task.spec_ts(), task.spec_tag(), result)
        }
}

/// What carrying out an action asks of the scheduler and of the engine,
/// given the answer of the engine: a message is posted; or the batch is
/// handed to the engine and, if the engine refuses it, the failure is
/// posted.
pub open spec fn acted(action: WriteAction, reply: Result<(), EngineError>) -> Seq<Effect> {
    match action {
        WriteAction::Post(msg) => seq![Effect::Post { msg }],
        WriteAction::Persist { ctx, to_be_write, pending } => seq![
            Effect::AsyncWrite { ctx, batch: to_be_write, pending, reply },
        ] + match reply {
            Ok(_) => Seq::empty(),
            Err(e) => seq![Effect::Post { msg: spec_async_write_failed(pending.cid, pending.tag, e) }],
        },
    }
}

/// Whether the write command of the task was processed and the action
/// decided on was carried out.
pub open spec fn write_carried_out(
    task: Task,
    has_lock_mgr: bool,
    effects: (Seq<Effect>, Seq<Effect>),
    statistics: Statistics,
) -> bool {
    exists|action: WriteAction, asked: Seq<Effect>, reply: Result<(), EngineError>|
        {
            &&& #[trigger] decides_write(task, has_lock_mgr, (effects.0, asked), action, statistics)
            &&& effects.1 == asked + #[trigger] acted(action, reply)
        }
}

/// Processes the read command of a task on the snapshot. Returns the
/// message that reports its end, and the counters of the operations made
/// on the store.
pub fn read_message<S: Snapshot>(snapshot: S, task: Task, effects: &mut Effects) -> (r: (Msg, Statistics))
    requires
        spec_supports_read(&task.spec_cmd()),
    ensures
        reports_read(task, (old(effects)@, final(effects)@), r.0, r.1),
{
    let tag = task.tag;
    let cid = task.cid;
    let mut statistics = Statistics::new();
    let result = process_read_impl(task.cmd, snapshot, &mut statistics, effects);
    let msg = read_finished(cid, tag, result);
    assert(read_outcome(task.spec_cmd(), (Statistics::zero(), statistics), (old(effects)@, effects@), result));
    assert(reports_read(task, (old(effects)@, effects@), msg, statistics));
    (msg, statistics)
}

/// Processes the write command of a task on the snapshot, wakes the
/// transactions that waited for the locks it set free, and decides how
/// the executor goes on. Returns the decision, and the counters of the
/// operations made on the store.
pub fn write_decision<S: Snapshot, L: LockMgr>(
    lock_mgr: Option<L>,
    snapshot: S,
    task: Task,
    effects: &mut Effects,
) -> (r: (WriteAction, Statistics))
    requires
        spec_write_ready(&task.spec_cmd()),
        task.spec_cmd() is PessimisticRollback ==> lock_mgr is Some,
    ensures
        decides_write(task, lock_mgr is Some, (old(effects)@, final(effects)@), r.0, r.1),
{
    let tag = task.tag;
    let cid = task.cid;
    let ts = task.ts;
    let mut statistics = Statistics::new();
    let result = process_write_impl(task.cmd, snapshot, lock_mgr, &mut statistics, effects);
    let action = write_action(cid, ts, tag, result);
    assert(write_processed(
        task.spec_cmd(),
        lock_mgr is Some,
        (Statistics::zero(), statistics),
        (old(effects)@, effects@),
        result,
    ));
    assert(decides_write(task, lock_mgr is Some, (old(effects)@, effects@), action, statistics));
    (action, statistics)
}

impl<E: Engine, S: MsgScheduler, L: LockMgr, P: Clone> Job<E, S, L, P> {
    /// Whether the command of the job can be run.
    pub open spec fn wf(&self) -> bool {
        *self is Process ==> spec_runnable(&self->task.spec_cmd(), self->executor.spec_lock_mgr() is Some)
    }

    /// How long the worker is to be held up before the job is run, in
    /// milliseconds, if at all.
    pub fn pause_duration(&self) -> (r: Option<u64>)
        ensures
            r == match *self {
                Job::Process { task, .. } => task.spec_cmd().spec_pause_duration(),
                Job::Report { .. } => None,
            },
    {
        match self {
            Job::Process { task, .. } => task.cmd().pause_duration(),
            Job::Report { .. } => None,
        }
    }

    /// What running the job does: a report is posted; a read command is
    /// processed and its end posted; a write command is processed and the
    /// action decided on is carried out.
    pub open spec fn ran(self, effects: (Seq<Effect>, Seq<Effect>), statistics: Statistics) -> bool {
        match self {
            Job::Report { msg, .. } => effects.1 == effects.0.push(Effect::Post { msg }) && statistics
                == Statistics::zero(),
            Job::Process { executor, task, .. } => if task.spec_cmd().spec_readonly() {
                read_processed(task, effects, statistics)
            } else {
                write_carried_out(task, executor.spec_lock_mgr() is Some, effects, statistics)
            },
        }
    }

    /// Does the work, on a worker thread. Returns the counters of the
    /// operations made on the store.
    pub fn run(self, engine: &E, effects: &mut Effects) -> (statistics: Statistics)
        requires
            self.wf(),
        ensures
            self.ran((old(effects)@, final(effects)@), statistics),
    {
        match self {
            Job::Report { scheduler, msg } => {
                notify_scheduler(scheduler, msg, effects);
                Statistics::new()
            },
            Job::Process { executor, snapshot, task } => {
                if task.cmd().readonly() {
                    executor.process_read(snapshot, task, effects)
                } else {
                    executor.process_write(engine, snapshot, task, effects)
                }
            },
        }
    }
}

/// The command that a job is about.
pub open spec fn job_cid<E: Engine, S: MsgScheduler, L: LockMgr, P: Clone>(job: Job<E, S, L, P>) -> u64 {
    match job {
        Job::Report { msg, .. } => msg.spec_cid(),
        Job::Process { task, .. } => task.spec_cid(),
    }
}

/// Whether what was asked of the scheduler and of the engine amounts to
/// one report on the command `cid`: one message about it was posted; or
/// its batch was handed to the engine, which took it, so that the callback
/// reports the end; or the batch was handed to the engine, which refused
/// it, and the failure was posted.
pub open spec fn reports_once(outward: Seq<Effect>, cid: u64) -> bool {
    if outward.len() == 1 {
        match outward[0] {
            Effect::Post { msg } => msg.spec_cid() == cid,
            Effect::AsyncWrite { pending, reply, .. } => reply is Ok && pending.cid == cid,
            _ => false,
        }
    } else if outward.len() == 2 {
        match outward[0] {
            Effect::AsyncWrite { pending, reply: Err(e), .. } => pending.cid == cid && outward[1] == (Effect::Post {
                msg: spec_async_write_failed(cid, pending.tag, e),
            }),
            _ => false,
        }
    } else {
        false
    }
}

/// One report for each execution. A job first works with the MVCC layer
/// and the lock manager only, and then reports exactly once on its
/// command: with one message to the scheduler, or by handing its batch to
/// the engine along with the callback that posts the one message.
pub proof fn lemma_job_reports_once<E: Engine, S: MsgScheduler, L: LockMgr, P: Clone>(
    job: Job<E, S, L, P>,
    effects: (Seq<Effect>, Seq<Effect>),
    statistics: Statistics,
)
    requires
        job.wf(),
        job.ran(effects, statistics),
    ensures
        exists|asked: Seq<Effect>, outward: Seq<Effect>|
            #![trigger all_inward(asked), reports_once(outward, job_cid(job))]
            {
                &&& effects.1 == effects.0 + asked + outward
                &&& all_inward(asked)
                &&& reports_once(outward, job_cid(job))
            },
{
    match job {
        Job::Report { msg, .. } => {
            let asked = Seq::<Effect>::empty();
            let outward = seq![Effect::Post { msg }];
            assert(effects.1 =~= effects.0 + asked + outward);
            assert(all_inward(asked));
            assert(reports_once(outward, job_cid(job)));
        },
        Job::Process { executor, task, .. } => {
            if task.spec_cmd().spec_readonly() {
                let (msg, mid) = choose|msg: Msg, mid: Seq<Effect>|
                    {
                        &&& #[trigger] reports_read(task, (effects.0, mid), msg, statistics)
                        &&& effects.1 == mid.push(Effect::Post { msg })
                    };
                let result = choose|result: Result<ProcessResult, Error>|
                    {
                        &&& #[trigger] read_outcome(
                            task.spec_cmd(),
                            (Statistics::zero(), statistics),
                            (effects.0, mid),
                            result,
                        )
                        &&& msg == spec_read_finished(task.spec_cid(), task.spec_tag(), result)
                    };
                lemma_read_inward(task.spec_cmd(), (Statistics::zero(), statistics), (effects.0, mid), result);
                let asked = choose|asked: Seq<Effect>| mid == effects.0 + asked && #[trigger] all_inward(asked);
                let outward = seq![Effect::Post { msg }];
                assert(effects.1 =~= effects.0 + asked + outward);
                assert(all_inward(asked));
                assert(reports_once(outward, job_cid(job)));
            } else {
                let has_lock_mgr = executor.spec_lock_mgr() is Some;
                let (action, mid, reply) = choose|
                    action: WriteAction,
                    mid: Seq<Effect>,
                    reply: Result<(), EngineError>,
                |
                    {
                        &&& #[trigger] decides_write(task, has_lock_mgr, (effects.0, mid), action, statistics)
                        &&& effects.1 == mid + #[trigger] acted(action, reply)
                    };
                let result = choose|result: Result<WriteResult, Error>|
                    {
                        &&& #[trigger] write_processed(
                            task.spec_cmd(),
                            has_lock_mgr,
                            (Statistics::zero(), statistics),
                            (effects.0, mid),
                            result,
                        )
                        &&& action == spec_write_action(task.spec_cid(), task.spec_ts(), task.spec_tag(), result)
                    };
                lemma_wake_ups_follow_work(
                    task.spec_cmd(),
                    has_lock_mgr,
                    (Statistics::zero(), statistics),
                    (effects.0, mid),
                    result,
                );
                let asked = choose|asked: Seq<Effect>| mid == effects.0 + asked && #[trigger] all_inward(asked);
                let outward = acted(action, reply);
                assert(effects.1 =~= effects.0 + asked + outward);
                assert(all_inward(asked));
                assert(reports_once(outward, job_cid(job)));
            }
        },
    }
}

/// What the engine made of a write that was handed to it.
pub ghost enum EngineVerdict {
    /// The engine refused the write outright.
    Refused(EngineError),
    /// The engine took the write and, later, reported how it ended.
    Done(Result<(), EngineError>),
}

/// The messages that one execution of a write command posts to the
/// scheduler, given the outcome of the command and what the engine makes
/// of its write, if it is handed one.
pub open spec fn write_messages(
    cid: u64,
    ts: u64,
    tag: &'static str,
    result: Result<WriteResult, Error>,
    engine: EngineVerdict,
) -> Seq<Msg> {
    match spec_write_action(cid, ts, tag, result) {
        WriteAction::Post(msg) => seq![msg],
        WriteAction::Persist { pending, .. } => match engine {
            EngineVerdict::Refused(err) => seq![spec_async_write_failed(cid, tag, err)],
            EngineVerdict::Done(result) => seq![pending.spec_finished(result)],
        },
    }
}

/// One message for each execution. An execution of a write command posts
/// exactly one message, and the message is about that command. It asks to
/// wait for a lock if and only if the command has to wait for one; in
/// every other case it ends the command. The command is reported as
/// failed if and only if it failed or the engine refused its write.
pub proof fn lemma_one_message_per_write(
    cid: u64,
    ts: u64,
    tag: &'static str,
    result: Result<WriteResult, Error>,
    engine: EngineVerdict,
)
    ensures
        write_messages(cid, ts, tag, result, engine).len() == 1,
        write_messages(cid, ts, tag, result, engine)[0].spec_cid() == cid,
        !(write_messages(cid, ts, tag, result, engine)[0] is ReadFinished),
        write_messages(cid, ts, tag, result, engine)[0] is WaitForLock <==> result is Ok
            && result->Ok_0.lock_info is Some,
        write_messages(cid, ts, tag, result, engine)[0].spec_is_terminal() <==> !(result is Ok
            && result->Ok_0.lock_info is Some),
        write_messages(cid, ts, tag, result, engine)[0] is FinishedWithErr <==> result is Err || (
        spec_write_action(cid, ts, tag, result) is Persist && engine is Refused),
{
}

/// An execution of a read command ends with exactly one message,
/// `ReadFinished`, about that command; and an execution for which no
/// snapshot could be taken ends with `FinishedWithErr`.
pub proof fn lemma_one_message_per_read(
    cid: u64,
    tag: &'static str,
    result: Result<ProcessResult, Error>,
    err: EngineError,
)
    ensures
        spec_read_finished(cid, tag, result) is ReadFinished,
        spec_read_finished(cid, tag, result).spec_cid() == cid,
        spec_read_finished(cid, tag, result).spec_is_terminal(),
        spec_snapshot_failed(cid, tag, err) is FinishedWithErr,
        spec_snapshot_failed(cid, tag, err).spec_cid() == cid,
        spec_snapshot_failed(cid, tag, err).spec_is_terminal(),
{
}

/// A write with nothing to persist is idempotent on the engine: if the
/// command has no modifications and no lock to wait for, the engine is not
/// called, and the command is reported as written with success.
pub proof fn lemma_empty_write(
    cid: u64,
    ts: u64,
    tag: &'static str,
    wr: WriteResult,
    engine: EngineVerdict,
    reply: Result<(), EngineError>,
)
    requires
        wr.to_be_write@.len() == 0,
        wr.lock_info is None,
    ensures
        spec_write_action(cid, ts, tag, Ok(wr)) is Post,
        acted(spec_write_action(cid, ts, tag, Ok(wr)), reply) == seq![
            Effect::Post { msg: Msg::WriteFinished { cid, pr: wr.pr, result: Ok(()), tag } },
        ],
        write_messages(cid, ts, tag, Ok(wr), engine) == seq![
            Msg::WriteFinished { cid, pr: wr.pr, result: Ok(()), tag },
        ],
{
}

} // verus!
