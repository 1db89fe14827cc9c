//! Periodic invocation of routines: pacing a single spun routine, and
//! scheduling several routines on one thread by earliest deadline.
//!
//! Instants and durations are whole nanoseconds held in `u64`. An instant
//! counts from an epoch that the embedding program picks, such as the moment
//! it started its monotonic clock. The library never reads a clock, never
//! sleeps, never waits for a lock and never starts a thread: every
//! operation takes the current instant as an argument and hands back what
//! to do next, and the embedding program does it.
//!
//! - `rate`: invocation rates and their periods.
//! - `spin`: the pacing of one spun routine under a mode.
//! - `routine`: the routines that can be spun, and the handle a spinning
//!   thread drives one through.
//! - `sync`: the scheduler of several periodic routines.
//! - `lock`: access to a value behind a shared read-write lock, tried once
//!   and never waited for.
//! - `files`: decisions about paths on disk.
#![allow(non_snake_case)]

pub mod files;
pub mod lock;
pub mod rate;
pub mod routine;
pub mod spin;
pub mod sync;

pub use crate::files::{betterGlob, remove, Removal};
pub use crate::lock::{BrokenRwLock, LockError};
pub use crate::rate::{Rate, RateError};
pub use crate::routine::{
    Freewheel, FreewheelSpinner, SpinWhole, SpinWise, Spinner, WholeSpinner,
};
pub use crate::spin::{Pace, Spin, SpinMode};
pub use crate::sync::{BrokenSyncClient, BrokenSyncManager, Step};
