//! What the spawners of a relay scope and its relay tasks share: the futures that wait to be
//! polled, and the books on them.
//!
//! The pad has one owner at a time. Whoever shares it puts it behind a lock; each function below
//! is then one step, and what the functions keep holds however the steps of several threads
//! interleave.

use futures::task::SpawnError;
use vstd::prelude::*;

use crate::relay::empty_signal::{EmptySignal, UntilEmpty};
use crate::relay::registry::{no_relays, relay_key, Registry};
use crate::relay::spawn_manager::RelayFutureId;
use crate::relay::task_queue::TaskQueue;
use crate::relay::waker_park::{
    park_announced, park_new, park_wait, park_wake, park_woken, ParkState, WaitResult, WakerPark,
};

verus! {

/// Why a relay task got no future.
#[derive(Debug, Clone, Copy, PartialEq, Eq, Structural)]
pub enum TaskDequeueErr {
    /// There is none, and the relay task does not wait for one.
    NoTasks,
    /// There is none; the relay task is woken when there may be one.
    WaitingForTasks,
    /// The scope is shut down.
    Destroy,
}

/// What a pad holds:
/// the number of the next spawn,
/// the futures that wait to be polled, the oldest first,
/// where the relay tasks are kept,
/// the relay tasks that wait for futures,
/// how many futures are not finished,
/// whether the scope is shut down,
/// and the signal for those who wait until no future is left, if there are any.
#[verifier::ext_equal]
pub struct RelayPadState<F, W> {
    pub next_spawn_id: usize,
    pub tasks: Seq<F>,
    pub relays: Map<(usize, usize), usize>,
    pub park: ParkState<W>,
    pub current_tasks: usize,
    pub destroyed: bool,
    pub waiter: Option<EmptySignal>,
}

/// The pad of a new scope.
pub open spec fn pad_new<F, W>() -> RelayPadState<F, W> {
    RelayPadState {
        next_spawn_id: 0,
        tasks: Seq::empty(),
        relays: no_relays(),
        park: park_new(),
        current_tasks: 0,
        destroyed: false,
        waiter: None,
    }
}

/// The pad after another spawn got its number.
pub open spec fn pad_spawn_numbered<F, W>(pad: RelayPadState<F, W>) -> RelayPadState<F, W> {
    RelayPadState { next_spawn_id: pad.next_spawn_id.wrapping_add(1), ..pad }
}

/// The pad after the relay task `id`, kept in `slot`, asked to be registered.
pub open spec fn pad_registered<F, W>(
    pad: RelayPadState<F, W>,
    id: RelayFutureId,
    slot: usize,
) -> RelayPadState<F, W> {
    if pad.destroyed {
        pad
    } else {
        RelayPadState { relays: pad.relays.insert(relay_key(id), slot), ..pad }
    }
}

/// The pad after the relay task `id` was struck out, with the future that it leaves behind.
pub open spec fn pad_unregistered<F, W>(
    pad: RelayPadState<F, W>,
    id: RelayFutureId,
    rescued: Option<F>,
) -> RelayPadState<F, W> {
    RelayPadState {
        relays: pad.relays.remove(relay_key(id)),
        tasks: match rescued {
            Some(future) if !pad.destroyed => pad.tasks.push(future),
            _ => pad.tasks,
        },
        ..pad
    }
}

/// The pad after `task` was spawned.
pub open spec fn pad_enqueued<F, W>(pad: RelayPadState<F, W>, task: F) -> RelayPadState<F, W> {
    if pad.destroyed {
        pad
    } else {
        RelayPadState {
            tasks: pad.tasks.push(task),
            current_tasks: pad.current_tasks.wrapping_add(1),
            park: park_wake(pad.park),
            ..pad
        }
    }
}

/// The pad after a relay task, with a waker if it can wait, asked for a future.
pub open spec fn pad_dequeued<F, W>(pad: RelayPadState<F, W>, waker: Option<W>) -> RelayPadState<
    F,
    W,
> {
    if pad.destroyed {
        pad
    } else if pad.tasks.len() > 0 {
        RelayPadState { tasks: pad.tasks.drop_first(), ..pad }
    } else {
        match waker {
            Some(waker) => RelayPadState { park: park_wait(pad.park, waker, pad.park.token), ..pad },
            None => pad,
        }
    }
}

/// What a relay task that asks for a future is answered.
pub open spec fn pad_dequeue_answer<F, W>(pad: RelayPadState<F, W>, can_wait: bool) -> Result<
    F,
    TaskDequeueErr,
> {
    if pad.destroyed {
        Err(TaskDequeueErr::Destroy)
    } else if pad.tasks.len() > 0 {
        Ok(pad.tasks[0])
    } else if can_wait {
        Err(TaskDequeueErr::WaitingForTasks)
    } else {
        Err(TaskDequeueErr::NoTasks)
    }
}

/// The pad after one future is no more. If it was the last one, those who wait for that are told.
pub open spec fn pad_task_ended<F, W>(pad: RelayPadState<F, W>) -> RelayPadState<F, W> {
    RelayPadState {
        current_tasks: (pad.current_tasks - 1) as usize,
        waiter: if pad.current_tasks == 1 {
            None
        } else {
            pad.waiter
        },
        ..pad
    }
}

/// The pad after a relay task asked to poll its future: if the scope is shut down, the relay task
/// has to give the future up.
pub open spec fn pad_polling_started<F, W>(pad: RelayPadState<F, W>) -> RelayPadState<F, W> {
    if pad.destroyed {
        pad_task_ended(pad)
    } else {
        pad
    }
}

/// The pad after a relay task polled its future, which is finished unless it is polled again.
pub open spec fn pad_polling_ended<F, W>(
    pad: RelayPadState<F, W>,
    poll_again: bool,
) -> RelayPadState<F, W> {
    if poll_again {
        pad
    } else {
        pad_task_ended(pad)
    }
}

/// The pad after a call to shut it down: for good once the last relay task is struck out.
pub open spec fn pad_destroyed<F, W>(pad: RelayPadState<F, W>) -> RelayPadState<F, W> {
    if pad.relays == no_relays() {
        RelayPadState {
            destroyed: true,
            tasks: Seq::empty(),
            current_tasks: 0,
            waiter: None,
            park: park_wake(pad.park),
            ..pad
        }
    } else {
        RelayPadState { destroyed: true, ..pad }
    }
}

/// Futures of type `F` that wait to be polled, and the relay tasks, with wakers of type `W`, that
/// poll them.
#[derive(Debug)]
pub struct RelayPad<F, W> {
    next_spawn_id: usize,
    queue: TaskQueue<F>,
    relays: Registry,
    waker_park: WakerPark<W>,
    current_tasks: usize,
    destroy: bool,
    wait_until_empty: Option<EmptySignal>,
}

impl<F, W> View for RelayPad<F, W> {
    type V = RelayPadState<F, W>;

    closed spec fn view(&self) -> RelayPadState<F, W> {
        RelayPadState {
            next_spawn_id: self.next_spawn_id,
            tasks: self.queue@,
            relays: self.relays@,
            park: self.waker_park@,
            current_tasks: self.current_tasks,
            destroyed: self.destroy,
            waiter: self.wait_until_empty,
        }
    }
}

/// Stands for a relay task that is polling a future of the scope.
#[derive(Debug)]
pub struct FuturePollingGuard {
    poll_again: bool,
}

impl FuturePollingGuard {
    /// Whether the future was found unfinished.
    pub closed spec fn unfinished(&self) -> bool {
        self.poll_again
    }

    /// Notes that the future is not finished and will be polled again.
    pub fn will_poll_again(&mut self)
        ensures
            final(self).unfinished(),
    {
        self.poll_again = true;
    }

    /// Whether the future will be polled again.
    pub fn poll_again(&self) -> (again: bool)
        ensures
            again == self.unfinished(),
    {
        self.poll_again
    }
}

impl<F, W> RelayPad<F, W> {
    /// The parts of the pad are sound, and wakers are parked only while they are announced.
    pub closed spec fn wf(&self) -> bool {
        &&& self.queue.wf()
        &&& park_announced(self.waker_park@)
        &&& (self.wait_until_empty matches Some(signal) ==> signal.wf())
    }

    /// On a sound pad, wakers are parked only while they are announced.
    pub proof fn law_sound_pad_announces(&self)
        requires
            self.wf(),
        ensures
            park_announced(self@.park),
    {
    }

    /// The pad of a new scope.
    pub fn new() -> (pad: Self)
        ensures
            pad.wf(),
            pad@ == pad_new::<F, W>(),
    {
        RelayPad {
            next_spawn_id: 0,
            queue: TaskQueue::new(),
            relays: Registry::new(),
            waker_park: WakerPark::new(),
            current_tasks: 0,
            destroy: false,
            wait_until_empty: None,
        }
    }

    /// The number of the next spawn.
    pub fn spawn_number(&self) -> (number: usize)
        ensures
            number == self@.next_spawn_id,
    {
        self.next_spawn_id
    }

    /// Numbers a spawn.
    pub fn next_spawn_id(&mut self) -> (id: usize)
        requires
            old(self).wf(),
        ensures
            final(self).wf(),
            final(self)@ == pad_spawn_numbered(old(self)@),
            id == old(self)@.next_spawn_id,
    {
        let id: usize = self.next_spawn_id;
        self.next_spawn_id = id.wrapping_add(1);
        id
    }

    /// Registers the relay task `id`, which is kept in `slot`, unless the scope is shut down.
    /// Returns whether it is registered.
    pub fn register_relay_future(&mut self, id: RelayFutureId, slot: usize) -> (registered: bool)
        requires
            old(self).wf(),
        ensures
            final(self).wf(),
            final(self)@ == pad_registered(old(self)@, id, slot),
            registered == !old(self)@.destroyed,
    {
        if self.destroy {
            return false;
        }
        self.relays.insert(id, slot);
        true
    }

    /// Strikes out the relay task `id`. The future that it leaves behind, if any, goes to the end
    /// of the queue, for another relay task to go on with; if the scope is shut down, it comes back
    /// to be dropped.
    pub fn unregister_relay_future(&mut self, id: RelayFutureId, future: Option<F>) -> (dropped:
        Option<F>)
        requires
            old(self).wf(),
            old(self)@.relays.contains_key(relay_key(id)),
        ensures
            final(self).wf(),
            final(self)@ == pad_unregistered(old(self)@, id, future),
            dropped == (if old(self)@.destroyed {
                future
            } else {
                None
            }),
    {
        self.relays.remove(id);
        if self.is_destroyed() {
            return future;
        }
        match future {
            Some(future) => match self.queue.push(future) {
                Ok(()) => None,
                Err(future) => Some(future),
            },
            None => None,
        }
    }

    /// Spawns `task`: it goes to the end of the queue, and `Ok` holds the relay tasks that the
    /// caller is to wake. If the scope is shut down, the task is dropped and the shutdown error
    /// comes back.
    pub fn enqueue_task(&mut self, task: F) -> (result: Result<Vec<W>, SpawnError>)
        requires
            old(self).wf(),
        ensures
            final(self).wf(),
            final(self)@ == pad_enqueued(old(self)@, task),
            result is Ok <==> !old(self)@.destroyed,
            result matches Ok(woken) ==> woken@ == park_woken(old(self)@.park),
            result matches Ok(woken) ==> {
                &&& woken@ == old(self)@.park.parked
                &&& final(self)@.park.parked.len() == 0
                &&& final(self)@.tasks == old(self)@.tasks.push(task)
            },
    {
        if self.is_destroyed() {
            return Err(SpawnError::shutdown());
        }
        match self.queue.push(task) {
            Ok(()) => {
                self.current_tasks = self.current_tasks.wrapping_add(1);
                Ok(self.waker_park.wake())
            },
            Err(_) => Err(SpawnError::shutdown()),
        }
    }

    /// Gives a relay task the future that waits longest. If there is none, a relay task that came
    /// with a waker is parked.
    pub fn dequeue_task(&mut self, waker: Option<W>) -> (result: Result<F, TaskDequeueErr>)
        requires
            old(self).wf(),
        ensures
            final(self).wf(),
            final(self)@ == pad_dequeued(old(self)@, waker),
            result == pad_dequeue_answer(old(self)@, waker is Some),
            match result {
                Ok(task) => {
                    &&& !old(self)@.destroyed
                    &&& seq![task] + final(self)@.tasks == old(self)@.tasks
                    &&& final(self)@.park == old(self)@.park
                },
                Err(TaskDequeueErr::WaitingForTasks) => {
                    &&& !old(self)@.destroyed && old(self)@.tasks.len() == 0
                    &&& waker is Some
                    &&& final(self)@.park.parked == old(self)@.park.parked.push(waker->0)
                },
                Err(TaskDequeueErr::NoTasks) => {
                    &&& !old(self)@.destroyed && old(self)@.tasks.len() == 0
                    &&& waker is None
                },
                Err(TaskDequeueErr::Destroy) => old(self)@.destroyed,
            },
    {
        let token = self.waker_park.token();
        if self.is_destroyed() {
            return Err(TaskDequeueErr::Destroy);
        }
        match self.queue.pop() {
            Some(task) => {
                assert(seq![task] + self@.tasks =~= old(self)@.tasks);
                Ok(task)
            },
            None => {
                match waker {
                    None => Err(TaskDequeueErr::NoTasks),
                    Some(waker) => {
                        let parked = self.waker_park.wait(waker, token);
                        assert(parked == WaitResult::Parked);
                        Err(TaskDequeueErr::WaitingForTasks)
                    },
                }
            },
        }
    }

    /// Lets a relay task poll its future, unless the scope is shut down: the future then counts as
    /// finished, and the relay task has to give it up.
    pub fn start_future_polling(&mut self) -> (guard: Option<FuturePollingGuard>)
        requires
            old(self).wf(),
            old(self)@.destroyed ==> old(self)@.current_tasks > 0,
        ensures
            final(self).wf(),
            final(self)@ == pad_polling_started(old(self)@),
            guard is Some <==> !old(self)@.destroyed,
            guard matches Some(guard) ==> !guard.unfinished(),
            old(self)@.destroyed && old(self)@.current_tasks == 1 ==> (old(
                self,
            )@.waiter matches Some(signal) ==> signal.signalled()),
    {
        if self.is_destroyed() {
            self.end_future_polling(false);
            return None;
        }
        Some(FuturePollingGuard { poll_again: false })
    }

    /// Notes that a relay task polled its future. A future that is not polled again is finished;
    /// if it was the last one, those who wait for that are told.
    pub fn end_future_polling(&mut self, poll_again: bool)
        requires
            old(self).wf(),
            !poll_again ==> old(self)@.current_tasks > 0,
        ensures
            final(self).wf(),
            final(self)@ == pad_polling_ended(old(self)@, poll_again),
            !poll_again && old(self)@.current_tasks == 1 ==> (old(
                self,
            )@.waiter matches Some(signal) ==> signal.signalled()),
    {
        if !poll_again {
            self.current_tasks = self.current_tasks - 1;
            if self.current_tasks == 0 {
                match self.wait_until_empty.take() {
                    Some(signal) => {
                        signal.give();
                    },
                    None => {},
                }
            }
        }
    }

    /// Shuts the scope down. As long as relay tasks are registered, that is only noted: the caller
    /// is to destroy them and call again. Once there is none, those who wait for the scope to run
    /// out of futures are told, and the relay tasks to wake and the futures to drop come back.
    pub fn destroy(&mut self) -> (outcome: Option<(Vec<W>, Vec<F>)>)
        requires
            old(self).wf(),
        ensures
            final(self).wf(),
            final(self)@ == pad_destroyed(old(self)@),
            outcome is Some <==> old(self)@.relays == no_relays(),
            outcome matches Some((woken, dropped)) ==> {
                &&& woken@ == park_woken(old(self)@.park)
                &&& woken@ == old(self)@.park.parked
                &&& dropped@ == old(self)@.tasks
                &&& final(self)@.tasks.len() == 0 && final(self)@.park.parked.len() == 0
                &&& (old(self)@.waiter matches Some(signal) ==> signal.signalled())
            },
    {
        self.destroy = true;
        if !self.relays.is_empty() {
            return None;
        }
        let dropped = self.queue.drain();
        self.current_tasks = 0;
        match self.wait_until_empty.take() {
            Some(signal) => {
                signal.give();
            },
            None => {},
        }
        Some((self.waker_park.wake(), dropped))
    }

    /// Where the registered relay tasks are kept, in any order.
    pub fn relay_slots(&self) -> (slots: Vec<usize>)
        ensures
            forall|slot: usize| #[trigger]
                slots@.contains(slot) <==> self@.relays.contains_value(slot),
            slots@.len() == self@.relays.dom().len(),
    {
        self.relays.slots()
    }

    /// Whether the scope is shut down.
    pub fn is_destroyed(&self) -> (destroyed: bool)
        ensures
            destroyed == self@.destroyed,
    {
        self.destroy
    }

    /// How many futures are not finished.
    pub fn current_tasks(&self) -> (count: usize)
        ensures
            count == self@.current_tasks,
    {
        self.current_tasks
    }

    /// A future that is ready once no future of the scope is left: at once if there is none, else
    /// together with all others that wait for it.
    pub fn until_empty(&mut self) -> (until: UntilEmpty)
        requires
            old(self).wf(),
        ensures
            final(self).wf(),
            !until.finished(),
            old(self)@.current_tasks == 0 ==> {
                &&& until.arrived()
                &&& until.signalled()
                &&& final(self)@ == old(self)@
            },
            old(self)@.current_tasks > 0 ==> {
                &&& final(self)@.waiter matches Some(signal)
                &&& until.signalled() == signal.signalled()
                &&& until.abandoned() == signal.abandoned()
                &&& old(self)@.waiter is Some ==> final(self)@.waiter == old(self)@.waiter
                &&& final(self)@ == (RelayPadState {
                    waiter: final(self)@.waiter,
                    ..old(self)@
                })
            },
    {
        if self.current_tasks == 0 {
            return UntilEmpty::ready();
        }
        let signal = match self.wait_until_empty.take() {
            Some(signal) => signal,
            None => EmptySignal::new(),
        };
        let until = signal.wait();
        self.wait_until_empty = Some(signal);
        until
    }
}

} // verus!
