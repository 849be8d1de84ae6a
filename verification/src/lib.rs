//! Task-aware locking primitives for cooperatively scheduled systems.
//!
//! A native operating-system lock would block the whole worker thread that
//! drives a cooperative scheduler.  The lock engines in this crate never
//! block: an acquisition either succeeds at once or joins a FIFO queue of
//! waiters, and the releasing holder hands ownership directly to the next
//! queued waiter through a single-use wakeup token.
//!
//! This crate holds the verified engine: the bookkeeping state, the wait
//! queue, the release protocol and the cancellation-safe teardown of a
//! queued-but-abandoned acquisition.  An embedding runtime owns the shared
//! state, performs the actual suspension and wakeup delivery, and reports
//! every event back to the engine, whose transitions are specified and
//! proved here.

pub mod fifo;
pub mod mutex;
pub mod rwlock;

pub use mutex::{Mutex, MutexFut, MutexGuard};
pub use rwlock::{RwLock, RwLockReadFut, RwLockReadGuard, RwLockWriteFut, RwLockWriteGuard};
