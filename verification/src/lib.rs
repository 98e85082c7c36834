//! Executor of transactional commands over an MVCC store.
//!
//! A command is run against a snapshot of the store and yields either a
//! read result or a batch of modifications; the outcome is reported to the
//! scheduler, and transactions that wait for a lock are woken when a
//! command sets it free.
//!
//! The MVCC layer, the lock manager, the scheduler and the engine live
//! outside this crate, behind traits of which nothing is assumed. What the
//! executor asks of them is kept on a record of effects, and the contracts
//! state what is asked, in which order, and what is made of each answer.

pub mod kv;
pub mod mvcc;
pub mod errors;
pub mod command;
pub mod effects;
pub mod lock_manager;
pub mod scheduler;
pub mod write;
pub mod read;
pub mod executor;
pub mod callback;
