# futures-scopes

Scopes for [futures](https://docs.rs/futures). A scope can spawn futures that borrow variables of
the stack frame in which the scope lives. When the scope is stopped or dropped, all its futures are
dropped as well.

- `LocalSpawnScope` polls its futures on the thread that polls the scope and collects their
  results.
- `RelayScope` relays its futures onto any number of underlying spawns. On each of them it runs
  relay tasks, which take futures from the scope and multiply to fill the spawn, but not overwhelm
  it. As a scope is a spawn itself, scopes can be nested.

## Layout

- `src/` is the verified library.
  - `task.rs` declares the pieces of the task system that the scopes carry around.
  - `scoped_spawn.rs` holds what scopes and spawners have in common.
  - `local/` is the local scope: the pad on which futures are spawned (`incoming.rs`), the place
    where scope and spawners share it (`shared.rs`), the futures that are polled (`task_set.rs`),
    the scope (`scope.rs`), what drives it (`until.rs`), the diary that a scope keeps of its steps
    (`diary.rs`) and the rules by which they are taken (`drive.rs`).
  - `relay/` is the relay scope: the queue (`task_queue.rs`), the parking of relay tasks
    (`waker_park.rs`), the list of relay tasks (`registry.rs`), the signal that no future is left
    (`empty_signal.rs`), the pad that holds these together (`relay_pad.rs`), the books of a spawn
    (`spawn_manager.rs`), the relay tasks (`relay_future.rs`) the scope as a whole
    (`scope.rs`) and where its futures are at any time (`custody.rs`).
  - `laws.rs`, in either directory, states what holds over any sequence of steps.
- `app/` ties the library to executors: the scopes behind reference counts and locks, as futures
  and as spawns.
- `tests/` runs the library, with real futures and executors where it matters.
