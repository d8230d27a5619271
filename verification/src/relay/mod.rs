//! The relay scope: futures are queued on a scope and relayed onto any number of spawns.

pub mod conduct;
pub mod custody;
pub mod empty_signal;
pub mod laws;
pub mod registry;
pub mod relay_future;
pub mod relay_pad;
pub mod scope;
pub mod slab;
pub mod spawn_manager;
pub mod task_queue;
pub mod waker_park;

pub use empty_signal::UntilEmpty;
pub use relay_pad::{RelayPad, TaskDequeueErr};
pub use scope::{RelayAction, RelayScope, RelayVerdict, StopOutcome};
pub use spawn_manager::{RelayFutureId, SpawnManager};
