//! Plain data exchanged with the key-value engine: request contexts,
//! modifications of a write batch, engine errors.

use vstd::prelude::*;

verus! {

/// A user key, as raw bytes.
pub type Key = Vec<u8>;

/// A user value, as raw bytes.
pub type Value = Vec<u8>;

/// Scheduling priority that a request asks for.
#[derive(Clone, Copy, Debug, PartialEq, Eq)]
pub enum CommandPri {
    Normal,
    Low,
    High,
}

/// Isolation level under which a snapshot is read.
#[derive(Clone, Copy, Debug, PartialEq, Eq)]
pub enum IsolationLevel {
    /// Snapshot isolation: locks of other transactions are honoured.
    Si,
    /// Read committed: locks are ignored.
    Rc,
}

/// Direction in which a reader walks the store.
#[derive(Clone, Copy, Debug, PartialEq, Eq)]
pub enum ScanMode {
    Forward,
    Backward,
    Mixed,
}

/// Request context that every command carries.
#[derive(Clone, Copy, Debug, PartialEq, Eq)]
pub struct Context {
    pub region_id: u64,
    pub term: u64,
    pub priority: CommandPri,
    pub isolation_level: IsolationLevel,
    pub not_fill_cache: bool,
}

impl Context {
    /// A context for `region_id` with every other field at its default.
    pub fn new(region_id: u64) -> (r: Context)
        ensures
            r == (Context {
                region_id,
                term: 0,
                priority: CommandPri::Normal,
                isolation_level: IsolationLevel::Si,
                not_fill_cache: false,
            }),
    {
        Context {
            region_id,
            term: 0,
            priority: CommandPri::Normal,
            isolation_level: IsolationLevel::Si,
            not_fill_cache: false,
        }
    }

    /// Whether reads made for this request may fill the block cache.
    pub open spec fn spec_fill_cache(&self) -> bool {
        !self.not_fill_cache
    }

    #[verifier::when_used_as_spec(spec_fill_cache)]
    pub fn fill_cache(&self) -> (r: bool)
        ensures
            r == self.spec_fill_cache(),
    {
        !self.not_fill_cache
    }

    /// Records the raft term under which the request is served.
    pub fn set_term(&mut self, term: u64)
        ensures
            *final(self) == (Context { term, ..*old(self) }),
    {
        self.term = term;
    }
}

/// Context handed back by the engine together with a snapshot or a write
/// completion.
#[derive(Clone, Copy, Debug, PartialEq, Eq)]
pub struct CbContext {
    pub term: Option<u64>,
}

/// Column family that a modification touches.
#[derive(Clone, Copy, Debug, PartialEq, Eq)]
pub enum Cf {
    Default,
    Lock,
    Write,
}

/// One modification of a write batch.
#[derive(Clone, Debug, PartialEq, Eq)]
pub enum Modify {
    Delete(Cf, Key),
    Put(Cf, Key, Value),
    DeleteRange(Cf, Key, Key, bool),
}

/// Failure reported by the engine.
#[derive(Clone, Debug, PartialEq, Eq)]
pub enum EngineError {
    /// The request was rejected, for instance because the region moved.
    Request { message: String },
    Timeout,
    EmptyRequest,
    Other { message: String },
}

} // verus!
