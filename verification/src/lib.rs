//! Scopes for spawning futures that may borrow from the stack.
//!
//! A [`LocalSpawnScope`](local::LocalSpawnScope) polls its futures on the thread that polls the
//! scope. A [`RelayScope`](relay::RelayScope) relays its futures onto any number of other spawns,
//! by way of relay tasks that it has them run.
//!
//! A scope that is stopped lets go of all its futures and refuses further ones.

pub mod local;
pub mod relay;
pub mod scoped_spawn;
pub mod task;

pub use scoped_spawn::{ScopedSpawn, SpawnScope};
