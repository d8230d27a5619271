//! The local scope: futures are spawned, polled and finished on one thread.

pub mod alarm;
pub mod conduct;
pub mod diary;
pub mod drive;
pub mod incoming;
pub mod laws;
pub mod scope;
pub mod shared;
pub mod task_set;
pub mod until;

pub use scope::{LocalScope, LocalSpawnScope, LocalSpawnScopeSpawner};
pub use until::{Until, UntilEmpty, UntilStalled};
