//! What scopes and their spawners have in common.

use futures::task::{FutureObj, SpawnError};
use vstd::prelude::*;

verus! {

/// A spawner for futures that may borrow anything that outlives `'sc`.
pub trait ScopedSpawn<'sc, T> {
    /// Spawns a task that polls the given future, or returns an error if spawning fails.
    fn spawn_obj_scoped(&self, future: FutureObj<'sc, T>) -> Result<(), SpawnError>;

    /// Whether the spawner is likely (but not guaranteed) to accept the next future. A spawner
    /// that does not say otherwise accepts it.
    fn status_scoped(&self) -> (status: Result<(), SpawnError>)
        default_ensures
            status is Ok,
    {
        Ok(())
    }
}

/// A scope on which futures can be spawned that may borrow anything that outlives `'sc`.
///
/// A scope drops all its futures when it is dropped itself.
pub trait SpawnScope<'sc, T> {
    /// The type of the scope's spawners.
    type Spawner: ScopedSpawn<'sc, T>;

    /// A new spawner that spawns onto this scope.
    fn spawner(&self) -> Self::Spawner;
}

} // verus!
